//! Decisions of the main window: what a key or mouse press does (close a
//! dialog, record a binding, dispatch an action, or let it through), moving
//! the selection, switching between the grid, the full-screen view and the
//! settings, and starting hover previews.
//!
//! The window state lives in `SessionState`; each event updates it and
//! answers what the caller has to do (load a clip, start a preview, rescan).
use vstd::prelude::*;
use crate::keybinds::{
    Action, BindModifiers, BindingView, KeyBind, KeyBindView, KeyEvent, KeyEventView, Keybinds,
    MouseButton, MouseEvent, TriggerView, binding_views, first_key_match, first_mouse_match, is_cancel_gesture,
    is_modifier_key, is_unbind_gesture, spec_from_button, spec_is_modifier_key,
};
use crate::paths::{path_order, spec_path_order};
use crate::text::{copy_str, str_eq};

verus! {

/// What a key press does.
pub enum KeyOutcome {
    /// Close the open dialog.
    CloseDialog,
    /// Not handled here: let the press reach the focused element.
    PassThrough,
    /// Remove the binding being recorded (Ctrl+Esc), which ends recording.
    RemoveBinding(usize),
    /// Leave recording without changing the binding (Esc).
    StopRecording,
    /// Store this trigger in the binding being recorded, then stop recording.
    CommitBinding(usize, KeyBind),
    /// Run the action of the first binding the press fires.
    Dispatch(Action),
}

/// What a mouse press does.
pub enum MouseOutcome {
    PassThrough,
    CommitBinding(usize, KeyBind),
    Dispatch(Action),
}

/// The binding a key press records.
pub open spec fn recorded_key(ev: KeyEvent) -> KeyBindView {
    KeyBindView {
        modifiers: BindModifiers::from_gpui_spec(ev.modifiers),
        trigger: TriggerView::Key(ev.key@),
    }
}

/// What a key press does, with the index of the binding it concerns.
pub enum KeyDecision {
    CloseDialog,
    PassThrough,
    RemoveBinding(usize),
    StopRecording,
    CommitBinding(usize),
    /// The action of binding number `i`.
    Dispatch(int),
}

/// The key press is Ctrl+Escape (and no other modifier but `function`).
pub open spec fn unbinds(ev: KeyEventView) -> bool {
    ev.key == "escape"@ && ev.modifiers.control && !ev.modifiers.alt && !ev.modifiers.shift
        && !ev.modifiers.platform
}

/// What the key press `ev` does: with a dialog open only a bare Escape
/// counts (it closes the dialog); while binding `recording` is recorded the
/// press edits that binding; otherwise, unless an unmodified press goes to a
/// focused text field, the first binding that the press fires runs.
pub open spec fn key_decision(
    dialog_open: bool,
    recording: Option<usize>,
    in_text_input: bool,
    ev: KeyEventView,
    bs: Seq<BindingView>,
) -> KeyDecision {
    if dialog_open {
        if ev.key == "escape"@ && !ev.modifiers.spec_modified() {
            KeyDecision::CloseDialog
        } else {
            KeyDecision::PassThrough
        }
    } else if recording is Some {
        if unbinds(ev) {
            KeyDecision::RemoveBinding(recording.unwrap())
        } else if ev.key == "escape"@ && !ev.modifiers.spec_modified() {
            KeyDecision::StopRecording
        } else if spec_is_modifier_key(ev.key) {
            KeyDecision::PassThrough
        } else {
            KeyDecision::CommitBinding(recording.unwrap())
        }
    } else if in_text_input && !ev.modifiers.spec_modified() {
        KeyDecision::PassThrough
    } else {
        match first_key_match(bs, ev) {
            Some(i) => KeyDecision::Dispatch(i),
            None => KeyDecision::PassThrough,
        }
    }
}

/// Decides what the key press `ev` does (see `key_decision`).
/// `dialog_open`: a modal dialog has focus; `recording`: the index of the
/// binding being recorded, if any; `in_text_input`: a text field has focus.
pub fn on_key(
    dialog_open: bool,
    recording: Option<usize>,
    in_text_input: bool,
    ev: &KeyEvent,
    keybinds: &Keybinds,
) -> (r: KeyOutcome)
    ensures
        match key_decision(
            dialog_open,
            recording,
            in_text_input,
            ev@,
            binding_views(keybinds.bindings@),
        ) {
            KeyDecision::CloseDialog => r is CloseDialog,
            KeyDecision::PassThrough => r is PassThrough,
            KeyDecision::RemoveBinding(i) => r == KeyOutcome::RemoveBinding(i),
            KeyDecision::StopRecording => r is StopRecording,
            KeyDecision::CommitBinding(i) => r matches KeyOutcome::CommitBinding(j, kb) && j == i
                && kb@ == recorded_key(*ev),
            KeyDecision::Dispatch(i) => r matches KeyOutcome::Dispatch(a) && a@
                == keybinds.bindings@[i].action@,
        },
{
    if dialog_open {
        if str_eq(ev.key.as_str(), "escape") && !ev.modifiers.modified() {
            return KeyOutcome::CloseDialog;
        }
        return KeyOutcome::PassThrough;
    }
    if let Some(idx) = recording {
        if is_unbind_gesture(ev) {
            return KeyOutcome::RemoveBinding(idx);
        }
        if is_cancel_gesture(ev) {
            return KeyOutcome::StopRecording;
        }
        if is_modifier_key(ev.key.as_str()) {
            return KeyOutcome::PassThrough;
        }
        return KeyOutcome::CommitBinding(idx, KeyBind::from_key(ev));
    }
    if in_text_input && !ev.modifiers.modified() {
        return KeyOutcome::PassThrough;
    }
    match keybinds.match_key(ev) {
        Some(a) => KeyOutcome::Dispatch(a),
        None => KeyOutcome::PassThrough,
    }
}

/// Decides what the mouse press `ev` does. While recording, a bare left
/// click is left alone (it is how the user clicks away); any other press is
/// recorded.
pub fn on_mouse(recording: Option<usize>, ev: &MouseEvent, keybinds: &Keybinds) -> (r: MouseOutcome)
    ensures
        recording is Some ==> (if ev.button == MouseButton::Left && !ev.modifiers.spec_modified() {
            r is PassThrough
        } else {
            r matches MouseOutcome::CommitBinding(i, kb) && i == recording.unwrap() && kb@
                == (KeyBindView {
                modifiers: BindModifiers::from_gpui_spec(ev.modifiers),
                trigger: TriggerView::Mouse(spec_from_button(ev.button)),
            })
        }),
        recording is None ==> match first_mouse_match(binding_views(keybinds.bindings@), *ev) {
            Some(i) => r matches MouseOutcome::Dispatch(a) && a@ == keybinds.bindings@[i].action@,
            None => r is PassThrough,
        },
{
    if let Some(idx) = recording {
        let left = match ev.button {
            MouseButton::Left => true,
            _ => false,
        };
        if left && !ev.modifiers.modified() {
            return MouseOutcome::PassThrough;
        }
        return MouseOutcome::CommitBinding(idx, KeyBind::from_mouse(ev));
    }
    match keybinds.match_mouse(ev) {
        Some(a) => MouseOutcome::Dispatch(a),
        None => MouseOutcome::PassThrough,
    }
}

/// `(selected + delta)` wrapped into `0..count` (Euclidean remainder).
pub open spec fn spec_wrap(selected: int, delta: int, count: int) -> int {
    (selected + delta) % count
}

/// The index `delta` steps from `selected` in a list of `count` items,
/// wrapping around at both ends.
pub fn wrap_index(selected: usize, delta: i64, count: usize) -> (r: usize)
    requires
        count > 0,
        count <= i64::MAX,
        selected <= i64::MAX,
        i64::MIN <= selected + delta <= i64::MAX,
    ensures
        r as int == spec_wrap(selected as int, delta as int, count as int),
        r < count,
{
    let c: u128 = count as u128;
    let s: u128 = selected as u128;
    if delta >= 0 {
        let d: u128 = delta as u128;
        let r = (s + d) % c;
        r as usize
    } else {
        let d: u128 = (0i128 - (delta as i128)) as u128;
        if s >= d {
            let r = (s - d) % c;
            r as usize
        } else {
            let y: u128 = d - s;
            let k = y % c;
            proof {
                let yi = y as int;
                let ci = c as int;
                let q = yi / ci;
                vstd::arithmetic::div_mod::lemma_fundamental_div_mod(yi, ci);
                assert(yi == ci * q + k);
                assert((-q) * ci == -(ci * q)) by (nonlinear_arith);
                assert((-q - 1) * ci == -(ci * q) - ci) by (nonlinear_arith);
                if k == 0 {
                    vstd::arithmetic::div_mod::lemma_fundamental_div_mod_converse(
                        -yi,
                        ci,
                        -q,
                        0,
                    );
                } else {
                    vstd::arithmetic::div_mod::lemma_fundamental_div_mod_converse(
                        -yi,
                        ci,
                        -q - 1,
                        ci - k,
                    );
                }
            }
            if k == 0 {
                0
            } else {
                (c - k) as usize
            }
        }
    }
}

/// Which view fills the window below the top bar.
#[derive(Clone, Copy, Debug, PartialEq, Eq, Structural)]
pub enum Mode {
    Grid,
    Fullscreen,
}

/// The window's state.
pub struct SessionState {
    pub settings_open: bool,
    /// Index of the binding being recorded, if any.
    pub recording: Option<usize>,
    pub mode: Mode,
    /// Index of the selected clip among the visible ones.
    pub selected: usize,
    /// A library rescan is due once the settings close.
    pub pending_rescan: bool,
    /// The clip under the cursor, waiting for its preview to start.
    pub hover_target: Option<String>,
    /// The clip whose preview is playing.
    pub preview: Option<String>,
}

/// `a` and `b` name the same path.
pub open spec fn same_path(a: Option<String>, b: Seq<char>) -> bool {
    a is Some && spec_path_order(a.unwrap()@, b) == 0
}

fn is_path(a: &Option<String>, b: &str) -> (r: bool)
    ensures
        r == same_path(*a, b@),
{
    match a {
        Some(p) => path_order(p.as_str(), b) == 0,
        None => false,
    }
}

impl SessionState {
    /// The grid, nothing selected beyond the first clip, nothing recording.
    pub fn new() -> (r: SessionState)
        ensures
            !r.settings_open && r.recording is None && r.mode == Mode::Grid && r.selected == 0
                && !r.pending_rescan && r.hover_target is None && r.preview is None,
    {
        SessionState {
            settings_open: false,
            recording: None,
            mode: Mode::Grid,
            selected: 0,
            pending_rescan: false,
            hover_target: None,
            preview: None,
        }
    }

    /// The library settings changed (`changed`): rescan now, or once the
    /// settings close if they are open (so typing a path does not scan).
    /// Returns `true` when the caller rescans now.
    pub fn config_changed(&mut self, changed: bool) -> (rescan: bool)
        ensures
            rescan == (changed && !old(self).settings_open),
            *final(self) == (SessionState {
                pending_rescan: old(self).pending_rescan || (changed && old(self).settings_open),
                ..*old(self)
            }),
    {
        if !changed {
            return false;
        }
        if self.settings_open {
            self.pending_rescan = true;
            false
        } else {
            true
        }
    }

    /// Opens or closes the settings. Closing them runs a rescan that was put
    /// off while they were open; returns `true` when the caller rescans.
    pub fn toggle_settings(&mut self) -> (rescan: bool)
        ensures
            rescan == (old(self).settings_open && old(self).pending_rescan),
            *final(self) == (SessionState {
                settings_open: !old(self).settings_open,
                pending_rescan: old(self).pending_rescan && !old(self).settings_open,
                ..*old(self)
            }),
    {
        let closing = self.settings_open;
        self.settings_open = !self.settings_open;
        if closing && self.pending_rescan {
            self.pending_rescan = false;
            true
        } else {
            false
        }
    }

    /// The filters changed: the selection goes back to the first clip.
    pub fn filters_changed(&mut self)
        ensures
            *final(self) == (SessionState { selected: 0, ..*old(self) }),
    {
        self.selected = 0;
    }

    /// Moves the selection by `delta` among `count` visible clips, wrapping
    /// around. Returns the clip to show in the full-screen view (whose
    /// preview stops), if it is open; `None` without clips.
    pub fn navigate(&mut self, delta: i64, count: usize) -> (load: Option<usize>)
        requires
            count <= i64::MAX,
            old(self).selected <= i64::MAX,
            i64::MIN <= old(self).selected + delta <= i64::MAX,
        ensures
            count == 0 ==> load is None && *final(self) == *old(self),
            count > 0 ==> final(self).selected as int == spec_wrap(
                old(self).selected as int,
                delta as int,
                count as int,
            ) && (if old(self).mode == Mode::Fullscreen {
                load == Some(final(self).selected) && *final(self) == (SessionState {
                    selected: final(self).selected,
                    preview: None,
                    ..*old(self)
                })
            } else {
                load is None && *final(self) == (SessionState {
                    selected: final(self).selected,
                    ..*old(self)
                })
            }),
    {
        if count == 0 {
            return None;
        }
        let next = wrap_index(self.selected, delta, count);
        self.selected = next;
        if self.mode == Mode::Fullscreen {
            self.preview = None;
            Some(next)
        } else {
            None
        }
    }

    /// Opens clip `idx` of the `count` visible ones full screen; `true` when
    /// there is such a clip (hovering and previews stop).
    pub fn open_fullscreen(&mut self, idx: usize, count: usize) -> (opened: bool)
        ensures
            opened == (idx < count),
            opened ==> *final(self) == (SessionState {
                selected: idx,
                mode: Mode::Fullscreen,
                hover_target: None,
                preview: None,
                ..*old(self)
            }),
            !opened ==> *final(self) == *old(self),
    {
        if idx >= count {
            return false;
        }
        self.selected = idx;
        self.hover_target = None;
        self.preview = None;
        self.mode = Mode::Fullscreen;
        true
    }

    /// Back to the grid; `true` if the full-screen view was open.
    pub fn exit_fullscreen(&mut self) -> (closed: bool)
        ensures
            closed == (old(self).mode == Mode::Fullscreen),
            *final(self) == (SessionState { mode: Mode::Grid, ..*old(self) }),
    {
        if self.mode != Mode::Fullscreen {
            return false;
        }
        self.mode = Mode::Grid;
        true
    }

    /// The cursor entered the tile of `path`; `true` when a new preview
    /// countdown starts (it is not the current hover target already).
    pub fn hover_clip(&mut self, path: &str) -> (start: bool)
        ensures
            start == !same_path(old(self).hover_target, path@),
            start ==> final(self).hover_target is Some && final(self).hover_target.unwrap()@
                == path@ && *final(self) == (SessionState {
                hover_target: final(self).hover_target,
                ..*old(self)
            }),
            !start ==> *final(self) == *old(self),
    {
        if is_path(&self.hover_target, path) {
            return false;
        }
        self.hover_target = Some(copy_str(path));
        true
    }

    /// The cursor left the tile of `path`. Only the current hover target is
    /// cleared (a late leave of an earlier tile changes nothing); then the
    /// preview stops. Returns `true` when it did.
    pub fn unhover_clip(&mut self, path: &str) -> (stopped: bool)
        ensures
            stopped == same_path(old(self).hover_target, path@),
            stopped ==> *final(self) == (SessionState {
                hover_target: None,
                preview: None,
                ..*old(self)
            }),
            !stopped ==> *final(self) == *old(self),
    {
        if is_path(&self.hover_target, path) {
            self.hover_target = None;
            self.preview = None;
            true
        } else {
            false
        }
    }

    /// The hover countdown for `path` ran out: its preview starts if the
    /// cursor is still on it and it is not already playing. Returns `true`
    /// when the caller starts the preview.
    pub fn preview_due(&mut self, path: &str) -> (start: bool)
        ensures
            start == (same_path(old(self).hover_target, path@) && !same_path(
                old(self).preview,
                path@,
            )),
            start ==> final(self).preview is Some && final(self).preview.unwrap()@ == path@
                && *final(self) == (SessionState { preview: final(self).preview, ..*old(self) }),
            !start ==> *final(self) == *old(self),
    {
        if !is_path(&self.hover_target, path) || is_path(&self.preview, path) {
            return false;
        }
        self.preview = Some(copy_str(path));
        true
    }

    /// Starts recording a trigger for binding `idx`.
    pub fn start_recording(&mut self, idx: usize)
        ensures
            *final(self) == (SessionState { recording: Some(idx), ..*old(self) }),
    {
        self.recording = Some(idx);
    }

    /// Leaves recording; `true` if it was on.
    pub fn stop_recording(&mut self) -> (was: bool)
        ensures
            was == (old(self).recording is Some),
            *final(self) == (SessionState { recording: None, ..*old(self) }),
    {
        let was = self.recording.is_some();
        self.recording = None;
        was
    }

    /// Binding `idx` is being removed: recording stops if it targets that
    /// binding or a later one (whose index would shift).
    pub fn binding_removed(&mut self, idx: usize)
        ensures
            match old(self).recording {
                Some(r) => if r >= idx {
                    *final(self) == (SessionState { recording: None, ..*old(self) })
                } else {
                    *final(self) == *old(self)
                },
                None => *final(self) == *old(self),
            },
    {
        if let Some(r) = self.recording {
            if r >= idx {
                self.recording = None;
            }
        }
    }
}

impl SessionState {
    /// Whether the preview playing is the one of `path` (the tile of that
    /// clip shows it).
    pub fn previewing(&self, path: &str) -> (r: bool)
        ensures
            r == same_path(self.preview, path@),
    {
        is_path(&self.preview, path)
    }
}

/// The favorite toggle for the selected clip: the path of the clip at
/// position `selected` among the visible ones (`visible` holds their
/// positions in `clips`) and its new favorite flag; `None` when nothing is
/// selected there.
pub fn favorite_toggle(clips: &[crate::model::Clip], visible: &Vec<usize>, selected: usize) -> (r: Option<(String, bool)>)
    ensures
        (selected < visible@.len() && visible@[selected as int] < clips@.len()) ==> r is Some
            && r.unwrap().0@ == clips@[visible@[selected as int] as int].path@
            && r.unwrap().1 == !clips@[visible@[selected as int] as int].favorite,
        !(selected < visible@.len() && visible@[selected as int] < clips@.len()) ==> r is None,
{
    if selected >= visible.len() {
        return None;
    }
    let i = visible[selected];
    if i >= clips.len() {
        return None;
    }
    Some((copy_str(clips[i].path.as_str()), !clips[i].favorite))
}

/// What fills the window below the top bar.
#[derive(Clone, Copy, Debug, PartialEq, Eq, Structural)]
pub enum Body {
    Settings,
    Fullscreen,
    Grid,
}

impl SessionState {
    /// The settings when open, else the full-screen view when in that mode,
    /// else the grid (which alone shows the search and filter controls).
    pub fn body(&self) -> (r: Body)
        ensures
            self.settings_open ==> r == Body::Settings,
            !self.settings_open && self.mode == Mode::Fullscreen ==> r == Body::Fullscreen,
            !self.settings_open && self.mode == Mode::Grid ==> r == Body::Grid,
    {
        if self.settings_open {
            Body::Settings
        } else {
            match self.mode {
                Mode::Fullscreen => Body::Fullscreen,
                Mode::Grid => Body::Grid,
            }
        }
    }
}

/// What the grid shows.
#[derive(Clone, Copy, Debug, PartialEq, Eq, Structural)]
pub enum GridContent {
    /// No clips directory is configured.
    NoDirectory,
    /// No clips yet, and a scan is running.
    Scanning,
    /// No clips, and no scan is running.
    NoClips,
    /// The clip tiles.
    Tiles,
}

/// What the grid shows, given whether a clips directory is set, how many
/// clips the library holds and whether a scan runs.
pub fn grid_content(has_clips_dir: bool, clip_count: usize, scanning: bool) -> (r: GridContent)
    ensures
        !has_clips_dir ==> r == GridContent::NoDirectory,
        has_clips_dir && clip_count == 0 && scanning ==> r == GridContent::Scanning,
        has_clips_dir && clip_count == 0 && !scanning ==> r == GridContent::NoClips,
        has_clips_dir && clip_count > 0 ==> r == GridContent::Tiles,
{
    if !has_clips_dir {
        GridContent::NoDirectory
    } else if clip_count == 0 {
        if scanning {
            GridContent::Scanning
        } else {
            GridContent::NoClips
        }
    } else {
        GridContent::Tiles
    }
}

impl GridContent {
    /// Heading and message of an empty grid; `None` for tiles.
    pub fn empty_text(self) -> (r: Option<(&'static str, &'static str)>)
        ensures
            self == GridContent::Tiles <==> r is None,
    {
        match self {
            GridContent::NoDirectory => Some(
                ("No clips directory set", "Choose a folder of clips in Settings to get started."),
            ),
            GridContent::Scanning => Some(("Library empty", "Scanning for clips…")),
            GridContent::NoClips => Some(
                ("Library empty", "No video clips found in the configured directory."),
            ),
            GridContent::Tiles => None,
        }
    }
}

/// The names of the keys that are only modifiers.
proof fn reveal_modifier_names()
    ensures
        "escape"@.len() == 6,
        "shift"@.len() == 5,
        "control"@.len() == 7,
        "ctrl"@.len() == 4,
        "alt"@.len() == 3,
        "platform"@.len() == 8,
        "cmd"@.len() == 3,
        "super"@.len() == 5,
        "function"@.len() == 8,
        "fn"@.len() == 2,
{
    reveal_strlit("escape");
    reveal_strlit("shift");
    reveal_strlit("control");
    reveal_strlit("ctrl");
    reveal_strlit("alt");
    reveal_strlit("platform");
    reveal_strlit("cmd");
    reveal_strlit("super");
    reveal_strlit("function");
    reveal_strlit("fn");
}

/// While binding `idx` is being recorded (no dialog open), pressing a key
/// that is only a modifier (shift, control, ctrl, alt, platform, cmd, super,
/// function, fn) records nothing: the press passes through and recording
/// waits for the real key. Any other key but Escape is recorded into that
/// binding, whatever modifiers are held.
pub proof fn law_modifier_keys_wait_for_the_real_key(
    idx: usize,
    in_text_input: bool,
    ev: KeyEventView,
    bs: Seq<BindingView>,
)
    ensures
        (ev.key == "shift"@ || ev.key == "control"@ || ev.key == "ctrl"@ || ev.key == "alt"@
            || ev.key == "platform"@ || ev.key == "cmd"@ || ev.key == "super"@ || ev.key
            == "function"@ || ev.key == "fn"@) ==> key_decision(
            false,
            Some(idx),
            in_text_input,
            ev,
            bs,
        ) is PassThrough,
        (ev.key != "shift"@ && ev.key != "control"@ && ev.key != "ctrl"@ && ev.key != "alt"@
            && ev.key != "platform"@ && ev.key != "cmd"@ && ev.key != "super"@ && ev.key
            != "function"@ && ev.key != "fn"@ && ev.key != "escape"@) ==> key_decision(
            false,
            Some(idx),
            in_text_input,
            ev,
            bs,
        ) == KeyDecision::CommitBinding(idx),
{
    reveal_modifier_names();
}

/// No key press runs an action while a dialog is open or while a binding
/// is being recorded.
pub proof fn law_no_dispatch_while_busy(
    dialog_open: bool,
    recording: Option<usize>,
    in_text_input: bool,
    ev: KeyEventView,
    bs: Seq<BindingView>,
)
    requires
        dialog_open || recording is Some,
    ensures
        !(key_decision(dialog_open, recording, in_text_input, ev, bs) is Dispatch),
{
}

/// Moving forward through all `count` clips one at a time comes back to the
/// clip it started from; one step forward and one back is no move.
pub proof fn law_navigation_wraps(selected: int, count: int)
    requires
        0 <= selected < count,
    ensures
        spec_wrap(spec_wrap(selected, 1, count), -1, count) == selected,
        spec_wrap(selected, count, count) == selected,
{
    let n = spec_wrap(selected, 1, count);
    if selected + 1 < count {
        vstd::arithmetic::div_mod::lemma_small_mod((selected + 1) as nat, count as nat);
        vstd::arithmetic::div_mod::lemma_small_mod(selected as nat, count as nat);
    } else {
        vstd::arithmetic::div_mod::lemma_fundamental_div_mod_converse(count, count, 1, 0);
        vstd::arithmetic::div_mod::lemma_fundamental_div_mod_converse(-1, count, -1, count - 1);
    }
    vstd::arithmetic::div_mod::lemma_fundamental_div_mod_converse(selected + count, count, 1, selected);
}

} // verus!
