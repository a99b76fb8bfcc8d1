//! The action picker of a binding row in the settings: the actions whose
//! label matches the search text, and the keyboard cursor over them.
//!
//! Nothing is highlighted while typing; Down enters the list at the top and
//! Up at the bottom, both stop at the ends; Enter picks the highlighted
//! action, which replaces the binding's action only when it is of another
//! kind.
use vstd::prelude::*;
use crate::keybinds::{Action, ActionView, action_kind, spec_action_label};
use crate::text::{chars_of, contains_chars, has_substring, spec_lowercase, to_lowercase};

verus! {

/// `a` is offered for the lower-cased search text `query`: the query is
/// empty or occurs in the lower-cased label.
pub open spec fn offered(a: ActionView, query: Seq<char>) -> bool {
    query.len() == 0 || has_substring(spec_lowercase(spec_action_label(a)), query)
}

/// The actions offered for the lower-cased query `q`, in declaration order.
pub open spec fn offered_actions(q: Seq<char>) -> Seq<ActionView> {
    seq![
        ActionView::ToggleSettings,
        ActionView::Close,
        ActionView::RunCommand(Seq::<char>::empty()),
    ].filter(|a: ActionView| offered(a, q))
}

/// Whether `action` is offered for the lower-cased search text `query`.
pub fn action_matches(action: &Action, query: &str) -> (r: bool)
    ensures
        r == offered(action@, query@),
{
    if query.is_empty() {
        return true;
    }
    let label = to_lowercase(action.label());
    let hay = chars_of(label.as_str());
    let needle = chars_of(query);
    contains_chars(&hay, &needle)
}

/// The actions offered for what was typed in the search field (compared
/// lower-cased), in declaration order.
pub fn filter_actions(search: &str) -> (r: Vec<Action>)
    ensures
        r@.map_values(|a: Action| a@) == offered_actions(spec_lowercase(search@)),
{
    let query = to_lowercase(search);
    let all = Action::all();
    let ghost src = all@.map_values(|a: Action| a@);
    assert(src =~= seq![
        ActionView::ToggleSettings,
        ActionView::Close,
        ActionView::RunCommand(Seq::<char>::empty()),
    ]);
    let mut out: Vec<Action> = Vec::new();
    let mut i: usize = 0;
    while i < all.len()
        invariant
            i <= all@.len(),
            src == all@.map_values(|a: Action| a@),
            out@.map_values(|a: Action| a@) == src.subrange(0, i as int).filter(
                |a: ActionView| offered(a, query@),
            ),
        decreases all@.len() - i,
    {
        let ghost before = out@.map_values(|a: Action| a@);
        let ghost pre = src.subrange(0, i as int + 1);
        assert(pre.drop_last() =~= src.subrange(0, i as int));
        assert(pre.last() == all@[i as int]@);
        proof {
            pre.drop_last().lemma_filter_push(pre.last(), |a: ActionView| offered(a, query@));
        }
        assert(pre =~= pre.drop_last().push(pre.last()));
        if action_matches(&all[i], query.as_str()) {
            out.push(all[i].duplicate());
            assert(out@.map_values(|a: Action| a@) =~= before.push(all@[i as int]@));
        } else {
            assert(out@.map_values(|a: Action| a@) =~= before);
        }
        i = i + 1;
    }
    assert(src.subrange(0, all@.len() as int) =~= src);
    out
}

/// The cursor after Down in a list of `len` items: from nothing to the
/// first item, else one further, stopping at the last. An empty list leaves
/// it as it is.
pub open spec fn spec_cursor_down(cursor: Option<usize>, len: usize) -> Option<usize> {
    if len == 0 {
        cursor
    } else {
        match cursor {
            None => Some(0usize),
            Some(c) => if c + 1 < len {
                Some((c + 1) as usize)
            } else {
                Some((len - 1) as usize)
            },
        }
    }
}

/// The cursor after Up in a list of `len` items: from nothing to the last
/// item, else one back, stopping at the first. An empty list leaves it as
/// it is.
pub open spec fn spec_cursor_up(cursor: Option<usize>, len: usize) -> Option<usize> {
    if len == 0 {
        cursor
    } else {
        match cursor {
            None => Some((len - 1) as usize),
            Some(c) => if c > 0 {
                Some((c - 1) as usize)
            } else {
                Some(0usize)
            },
        }
    }
}

/// Moves the cursor down (see `spec_cursor_down`).
pub fn cursor_down(cursor: Option<usize>, len: usize) -> (r: Option<usize>)
    ensures
        r == spec_cursor_down(cursor, len),
{
    if len == 0 {
        return cursor;
    }
    let last = len - 1;
    match cursor {
        None => Some(0),
        Some(c) => if c < last {
            Some(c + 1)
        } else {
            Some(last)
        },
    }
}

/// Moves the cursor up (see `spec_cursor_up`).
pub fn cursor_up(cursor: Option<usize>, len: usize) -> (r: Option<usize>)
    ensures
        r == spec_cursor_up(cursor, len),
{
    if len == 0 {
        return cursor;
    }
    match cursor {
        None => Some(len - 1),
        Some(c) => if c > 0 {
            Some(c - 1)
        } else {
            Some(0)
        },
    }
}

/// The action Enter picks: the highlighted one, if the cursor is on an item.
pub fn picked(cursor: Option<usize>, items: &Vec<Action>) -> (r: Option<Action>)
    ensures
        match cursor {
            Some(c) => if c < items@.len() {
                r is Some && r.unwrap()@ == items@[c as int]@
            } else {
                r is None
            },
            None => r is None,
        },
{
    match cursor {
        Some(c) => if c < items.len() {
            Some(items[c].duplicate())
        } else {
            None
        },
        None => None,
    }
}

/// Picking `chosen` for a binding whose action is `current` changes the
/// binding only when the kinds differ (so a configured command survives
/// picking its own kind again).
pub fn changes_action(chosen: &Action, current: &Action) -> (r: bool)
    ensures
        r == (action_kind(chosen@) != action_kind(current@)),
{
    !chosen.same_kind(current)
}

/// The cursor never leaves a non-empty list: Down and Up from a cursor on
/// an item (or on none) land on an item.
pub proof fn law_cursor_stays_in_list(c: Option<usize>, len: usize)
    requires
        len > 0,
        c matches Some(k) ==> k < len,
    ensures
        spec_cursor_down(c, len) matches Some(d) && d < len,
        spec_cursor_up(c, len) matches Some(u) && u < len,
{
}

/// An empty search offers every action.
pub proof fn law_empty_search_offers_all()
    ensures
        offered_actions(Seq::<char>::empty()) == seq![
            ActionView::ToggleSettings,
            ActionView::Close,
            ActionView::RunCommand(Seq::<char>::empty()),
        ],
{
    let s = seq![
        ActionView::ToggleSettings,
        ActionView::Close,
        ActionView::RunCommand(Seq::<char>::empty()),
    ];
    let f = |a: ActionView| offered(a, Seq::<char>::empty());
    assert(s.filter(f) =~= s) by {
        s.drop_last().lemma_filter_push(s.last(), f);
        s.drop_last().drop_last().lemma_filter_push(s.drop_last().last(), f);
        s.drop_last().drop_last().drop_last().lemma_filter_push(s.drop_last().drop_last().last(), f);
        assert(s.drop_last().drop_last().drop_last() =~= Seq::<ActionView>::empty());
        assert(s =~= s.drop_last().push(s.last()));
        assert(s.drop_last() =~= s.drop_last().drop_last().push(s.drop_last().last()));
        assert(s.drop_last().drop_last() =~= s.drop_last().drop_last().drop_last().push(s.drop_last().drop_last().last()));
        assert(Seq::<ActionView>::empty().filter(f) =~= Seq::<ActionView>::empty());
    }
}

} // verus!
