//! User-rebindable actions and the key/mouse triggers bound to them: the
//! textual form stored in the configuration file (`unparse` / `parse`), the
//! human-readable label shown in the settings menu (`display`), and matching
//! of incoming key and mouse events against the configured bindings.
use vstd::prelude::*;
use crate::text::{
    ascii_upper, char_views, chars_eq_str, chars_of, concat2, copy_str, copy_string, join_strings,
    join_with, lemma_join_split, lemma_split_join, split_chars, split_on, str_eq, string_of, to_ascii_upper, views,
};

verus! {

// ---------------------------------------------------------------------------
// Input events (the plain values the windowing layer reports)
// ---------------------------------------------------------------------------

/// Modifier keys held while an event happened.
#[derive(Clone, Copy, Debug, PartialEq, Eq, Structural, Hash)]
pub struct Modifiers {
    pub control: bool,
    pub alt: bool,
    pub shift: bool,
    pub platform: bool,
    pub function: bool,
}

impl Modifiers {
    /// No modifier held.
    pub fn none() -> (r: Modifiers)
        ensures
            !r.control && !r.alt && !r.shift && !r.platform && !r.function,
    {
        Modifiers { control: false, alt: false, shift: false, platform: false, function: false }
    }

    pub open spec fn spec_modified(self) -> bool {
        self.control || self.alt || self.shift || self.platform || self.function
    }

    /// True if any modifier key is held.
    pub fn modified(&self) -> (r: bool)
        ensures
            r == self.spec_modified(),
    {
        self.control || self.alt || self.shift || self.platform || self.function
    }
}

/// Direction of the side "navigate" mouse buttons.
#[derive(Clone, Copy, Debug, PartialEq, Eq, Structural, Hash)]
pub enum NavigationDirection {
    Back,
    Forward,
}

/// A physical mouse button.
#[derive(Clone, Copy, Debug, PartialEq, Eq, Structural, Hash)]
pub enum MouseButton {
    Left,
    Right,
    Middle,
    Navigate(NavigationDirection),
}

/// A key press: the key's name and the modifiers held with it.
#[derive(Clone, Debug, PartialEq, Eq, Hash)]
pub struct KeyEvent {
    pub key: String,
    pub modifiers: Modifiers,
}

pub struct KeyEventView {
    pub key: Seq<char>,
    pub modifiers: Modifiers,
}

impl View for KeyEvent {
    type V = KeyEventView;

    open spec fn view(&self) -> KeyEventView {
        KeyEventView { key: self.key@, modifiers: self.modifiers }
    }
}

/// A mouse button press and the modifiers held with it.
#[derive(Clone, Copy, Debug, PartialEq, Eq, Structural, Hash)]
pub struct MouseEvent {
    pub button: MouseButton,
    pub modifiers: Modifiers,
}

// ---------------------------------------------------------------------------
// Actions
// ---------------------------------------------------------------------------

/// User-rebindable actions. `RunCommand` carries a command string that the
/// settings menu edits alongside its trigger.
#[derive(Clone, Debug, PartialEq, Eq, Hash)]
pub enum Action {
    ToggleSettings,
    Close,
    RunCommand(String),
}

pub enum ActionView {
    ToggleSettings,
    Close,
    RunCommand(Seq<char>),
}

impl View for Action {
    type V = ActionView;

    open spec fn view(&self) -> ActionView {
        match self {
            Action::ToggleSettings => ActionView::ToggleSettings,
            Action::Close => ActionView::Close,
            Action::RunCommand(c) => ActionView::RunCommand(c@),
        }
    }
}

/// The variant of an action, ignoring its payload.
pub open spec fn action_kind(a: ActionView) -> int {
    match a {
        ActionView::ToggleSettings => 0,
        ActionView::Close => 1,
        ActionView::RunCommand(_) => 2,
    }
}

pub open spec fn spec_action_label(a: ActionView) -> Seq<char> {
    match a {
        ActionView::ToggleSettings => "Toggle Settings"@,
        ActionView::Close => "Close"@,
        ActionView::RunCommand(_) => "Run Command"@,
    }
}

impl Action {
    /// Display label for the action.
    pub fn label(&self) -> (r: &'static str)
        ensures
            r@ == spec_action_label(self@),
    {
        match self {
            Action::ToggleSettings => "Toggle Settings",
            Action::Close => "Close",
            Action::RunCommand(_) => "Run Command",
        }
    }

    /// True if `self` and `other` are the same variant, ignoring payload.
    pub fn same_kind(&self, other: &Action) -> (r: bool)
        ensures
            r == (action_kind(self@) == action_kind(other@)),
    {
        match (self, other) {
            (Action::ToggleSettings, Action::ToggleSettings) => true,
            (Action::Close, Action::Close) => true,
            (Action::RunCommand(_), Action::RunCommand(_)) => true,
            _ => false,
        }
    }

    /// A copy of this action.
    pub fn duplicate(&self) -> (r: Action)
        ensures
            r@ == self@,
    {
        match self {
            Action::ToggleSettings => Action::ToggleSettings,
            Action::Close => Action::Close,
            Action::RunCommand(c) => Action::RunCommand(copy_string(c)),
        }
    }

    /// Every variant once, in declaration order, payload variants carrying an
    /// empty payload (the list offered by the action picker).
    pub fn all() -> (r: Vec<Action>)
        ensures
            r@.len() == 3,
            r@[0]@ == ActionView::ToggleSettings,
            r@[1]@ == ActionView::Close,
            r@[2]@ == ActionView::RunCommand(Seq::<char>::empty()),
    {
        let mut v: Vec<Action> = Vec::new();
        v.push(Action::ToggleSettings);
        v.push(Action::Close);
        v.push(Action::RunCommand(String::new()));
        v
    }
}

impl Default for Action {
    fn default() -> (r: Action)
        ensures
            r@ == ActionView::ToggleSettings,
    {
        Action::ToggleSettings
    }
}

// ---------------------------------------------------------------------------
// Triggers and bindings
// ---------------------------------------------------------------------------

/// Modifiers that must be held for a binding to fire.
#[derive(Clone, Copy, Debug, PartialEq, Eq, Structural, Hash)]
pub struct BindModifiers {
    pub ctrl: bool,
    pub alt: bool,
    pub shift: bool,
    pub super_key: bool,
}

pub open spec fn no_mods() -> BindModifiers {
    BindModifiers { ctrl: false, alt: false, shift: false, super_key: false }
}

pub open spec fn spec_mods_match(b: BindModifiers, m: Modifiers) -> bool {
    b.ctrl == m.control && b.alt == m.alt && b.shift == m.shift && b.super_key == m.platform
}

impl Default for BindModifiers {
    fn default() -> (r: BindModifiers)
        ensures
            r == no_mods(),
    {
        BindModifiers { ctrl: false, alt: false, shift: false, super_key: false }
    }
}

impl BindModifiers {
    /// The modifiers of an event as binding modifiers (the function key is
    /// not bindable).
    pub fn from_gpui(m: Modifiers) -> (r: BindModifiers)
        ensures
            r == (BindModifiers {
                ctrl: m.control,
                alt: m.alt,
                shift: m.shift,
                super_key: m.platform,
            }),
    {
        BindModifiers { ctrl: m.control, alt: m.alt, shift: m.shift, super_key: m.platform }
    }

    /// True if exactly these modifiers (control, alt, shift, platform) are held.
    pub fn matches(self, m: Modifiers) -> (r: bool)
        ensures
            r == spec_mods_match(self, m),
            r == (self.ctrl == m.control && self.alt == m.alt && self.shift == m.shift
                && self.super_key == m.platform),
    {
        self.ctrl == m.control && self.alt == m.alt && self.shift == m.shift && self.super_key
            == m.platform
    }
}

/// A bindable mouse button.
#[derive(Clone, Copy, Debug, PartialEq, Eq, Structural, Hash)]
pub enum MouseTrigger {
    Left,
    Right,
    Middle,
    Back,
    Forward,
}

pub open spec fn spec_from_button(b: MouseButton) -> MouseTrigger {
    match b {
        MouseButton::Left => MouseTrigger::Left,
        MouseButton::Right => MouseTrigger::Right,
        MouseButton::Middle => MouseTrigger::Middle,
        MouseButton::Navigate(NavigationDirection::Back) => MouseTrigger::Back,
        MouseButton::Navigate(NavigationDirection::Forward) => MouseTrigger::Forward,
    }
}

pub open spec fn spec_mouse_label(t: MouseTrigger) -> Seq<char> {
    match t {
        MouseTrigger::Left => "Mouse Left"@,
        MouseTrigger::Right => "Mouse Right"@,
        MouseTrigger::Middle => "Mouse Middle"@,
        MouseTrigger::Back => "Mouse Back"@,
        MouseTrigger::Forward => "Mouse Forward"@,
    }
}

pub open spec fn spec_token(t: MouseTrigger) -> Seq<char> {
    match t {
        MouseTrigger::Left => "left"@,
        MouseTrigger::Right => "right"@,
        MouseTrigger::Middle => "middle"@,
        MouseTrigger::Back => "back"@,
        MouseTrigger::Forward => "forward"@,
    }
}

pub open spec fn spec_from_token(s: Seq<char>) -> Option<MouseTrigger> {
    if s == "left"@ {
        Some(MouseTrigger::Left)
    } else if s == "right"@ {
        Some(MouseTrigger::Right)
    } else if s == "middle"@ {
        Some(MouseTrigger::Middle)
    } else if s == "back"@ {
        Some(MouseTrigger::Back)
    } else if s == "forward"@ {
        Some(MouseTrigger::Forward)
    } else {
        None
    }
}

impl MouseTrigger {
    pub fn from_button(button: MouseButton) -> (r: MouseTrigger)
        ensures
            r == spec_from_button(button),
    {
        match button {
            MouseButton::Left => MouseTrigger::Left,
            MouseButton::Right => MouseTrigger::Right,
            MouseButton::Middle => MouseTrigger::Middle,
            MouseButton::Navigate(NavigationDirection::Back) => MouseTrigger::Back,
            MouseButton::Navigate(NavigationDirection::Forward) => MouseTrigger::Forward,
        }
    }

    /// Human-readable name, as shown in the settings menu.
    pub fn label(self) -> (r: &'static str)
        ensures
            r@ == spec_mouse_label(self),
    {
        match self {
            MouseTrigger::Left => "Mouse Left",
            MouseTrigger::Right => "Mouse Right",
            MouseTrigger::Middle => "Mouse Middle",
            MouseTrigger::Back => "Mouse Back",
            MouseTrigger::Forward => "Mouse Forward",
        }
    }

    /// Name used in the configuration file.
    pub fn token(self) -> (r: &'static str)
        ensures
            r@ == spec_token(self),
    {
        match self {
            MouseTrigger::Left => "left",
            MouseTrigger::Right => "right",
            MouseTrigger::Middle => "middle",
            MouseTrigger::Back => "back",
            MouseTrigger::Forward => "forward",
        }
    }

    fn from_token_chars(s: &Vec<char>) -> (r: Option<MouseTrigger>)
        ensures
            r == spec_from_token(s@),
    {
        if chars_eq_str(s, "left") {
            Some(MouseTrigger::Left)
        } else if chars_eq_str(s, "right") {
            Some(MouseTrigger::Right)
        } else if chars_eq_str(s, "middle") {
            Some(MouseTrigger::Middle)
        } else if chars_eq_str(s, "back") {
            Some(MouseTrigger::Back)
        } else if chars_eq_str(s, "forward") {
            Some(MouseTrigger::Forward)
        } else {
            None
        }
    }

    /// Inverse of `token`; `None` for an unknown name.
    pub fn from_token(s: &str) -> (r: Option<MouseTrigger>)
        ensures
            r == spec_from_token(s@),
    {
        let cs = chars_of(s);
        Self::from_token_chars(&cs)
    }
}

/// What fires a binding.
#[derive(Clone, Debug, PartialEq, Eq, Hash)]
pub enum Trigger {
    Unset,
    Key(String),
    Mouse(MouseTrigger),
}

pub enum TriggerView {
    Unset,
    Key(Seq<char>),
    Mouse(MouseTrigger),
}

impl View for Trigger {
    type V = TriggerView;

    open spec fn view(&self) -> TriggerView {
        match self {
            Trigger::Unset => TriggerView::Unset,
            Trigger::Key(k) => TriggerView::Key(k@),
            Trigger::Mouse(m) => TriggerView::Mouse(*m),
        }
    }
}

impl Default for Trigger {
    fn default() -> (r: Trigger)
        ensures
            r@ == TriggerView::Unset,
    {
        Trigger::Unset
    }
}

/// A modifier combination plus a trigger.
#[derive(Clone, Debug, PartialEq, Eq, Hash)]
pub struct KeyBind {
    pub modifiers: BindModifiers,
    pub trigger: Trigger,
}

pub struct KeyBindView {
    pub modifiers: BindModifiers,
    pub trigger: TriggerView,
}

impl View for KeyBind {
    type V = KeyBindView;

    open spec fn view(&self) -> KeyBindView {
        KeyBindView { modifiers: self.modifiers, trigger: self.trigger@ }
    }
}

pub open spec fn unbound_view() -> KeyBindView {
    KeyBindView { modifiers: no_mods(), trigger: TriggerView::Unset }
}

impl Default for KeyBind {
    fn default() -> (r: KeyBind)
        ensures
            r@ == unbound_view(),
    {
        KeyBind { modifiers: BindModifiers::default(), trigger: Trigger::Unset }
    }
}

// --- textual form ----------------------------------------------------------

/// The modifier words of the configuration form, in their fixed order.
pub open spec fn mod_tokens(m: BindModifiers) -> Seq<Seq<char>> {
    (if m.ctrl {
        seq!["ctrl"@]
    } else {
        Seq::<Seq<char>>::empty()
    }) + (if m.alt {
        seq!["alt"@]
    } else {
        Seq::<Seq<char>>::empty()
    }) + (if m.shift {
        seq!["shift"@]
    } else {
        Seq::<Seq<char>>::empty()
    }) + (if m.super_key {
        seq!["super"@]
    } else {
        Seq::<Seq<char>>::empty()
    })
}

pub open spec fn trigger_tokens(t: TriggerView) -> Seq<Seq<char>> {
    match t {
        TriggerView::Unset => Seq::<Seq<char>>::empty(),
        TriggerView::Key(k) => seq![k],
        TriggerView::Mouse(m) => seq!["mouse"@, spec_token(m)],
    }
}

/// The configuration form of a binding: its words joined with `-`; an
/// unbound binding is the empty string.
pub open spec fn spec_unparse(k: KeyBindView) -> Seq<char> {
    if k.trigger is Unset {
        Seq::<char>::empty()
    } else {
        join_with(mod_tokens(k.modifiers) + trigger_tokens(k.trigger), seq!['-'])
    }
}

pub open spec fn is_mod_word(t: Seq<char>) -> bool {
    t == "ctrl"@ || t == "alt"@ || t == "shift"@ || t == "super"@
}

/// Removes the leading modifier words of `tokens`, recording them in `m`.
pub open spec fn strip_mods(tokens: Seq<Seq<char>>, m: BindModifiers) -> (
    Seq<Seq<char>>,
    BindModifiers,
)
    decreases tokens.len(),
{
    if tokens.len() == 0 {
        (tokens, m)
    } else if tokens[0] == "ctrl"@ {
        strip_mods(
            tokens.drop_first(),
            BindModifiers { ctrl: true, alt: m.alt, shift: m.shift, super_key: m.super_key },
        )
    } else if tokens[0] == "alt"@ {
        strip_mods(
            tokens.drop_first(),
            BindModifiers { ctrl: m.ctrl, alt: true, shift: m.shift, super_key: m.super_key },
        )
    } else if tokens[0] == "shift"@ {
        strip_mods(
            tokens.drop_first(),
            BindModifiers { ctrl: m.ctrl, alt: m.alt, shift: true, super_key: m.super_key },
        )
    } else if tokens[0] == "super"@ {
        strip_mods(
            tokens.drop_first(),
            BindModifiers { ctrl: m.ctrl, alt: m.alt, shift: m.shift, super_key: true },
        )
    } else {
        (tokens, m)
    }
}

/// Reading of the configuration form: leading modifier words, then either one
/// key name or `mouse` and a button name. The empty string is the unbound
/// binding; anything else is an error carrying a message.
pub open spec fn spec_parse(s: Seq<char>) -> Result<KeyBindView, Seq<char>> {
    if s.len() == 0 {
        Ok(unbound_view())
    } else {
        let (rest, m) = strip_mods(split_on(s, '-'), no_mods());
        if rest.len() == 0 {
            Err("empty keybind: "@ + s)
        } else if rest.len() == 2 && rest[0] == "mouse"@ {
            match spec_from_token(rest[1]) {
                Some(t) => Ok(KeyBindView { modifiers: m, trigger: TriggerView::Mouse(t) }),
                None => Err("unknown mouse button: "@ + rest[1]),
            }
        } else if rest.len() == 1 {
            Ok(KeyBindView { modifiers: m, trigger: TriggerView::Key(rest[0]) })
        } else {
            Err("unrecognized keybind: "@ + s)
        }
    }
}

// --- display form ----------------------------------------------------------

/// A key name with its first character upper-cased (ASCII only).
pub open spec fn spec_pretty_key(k: Seq<char>) -> Seq<char> {
    if k.len() == 0 {
        Seq::<char>::empty()
    } else {
        seq![ascii_upper(k[0])] + k.drop_first()
    }
}

pub open spec fn mod_labels(m: BindModifiers) -> Seq<Seq<char>> {
    (if m.ctrl {
        seq!["Ctrl"@]
    } else {
        Seq::<Seq<char>>::empty()
    }) + (if m.alt {
        seq!["Alt"@]
    } else {
        Seq::<Seq<char>>::empty()
    }) + (if m.shift {
        seq!["Shift"@]
    } else {
        Seq::<Seq<char>>::empty()
    }) + (if m.super_key {
        seq!["Super"@]
    } else {
        Seq::<Seq<char>>::empty()
    })
}

pub open spec fn trigger_labels(t: TriggerView) -> Seq<Seq<char>> {
    match t {
        TriggerView::Unset => Seq::<Seq<char>>::empty(),
        TriggerView::Key(k) => seq![spec_pretty_key(k)],
        TriggerView::Mouse(m) => seq![spec_mouse_label(m)],
    }
}

/// The label shown in the settings menu: `Unbound`, or the capitalised
/// modifier names and the trigger joined with ` + `.
pub open spec fn spec_display(k: KeyBindView) -> Seq<char> {
    if k.trigger is Unset {
        "Unbound"@
    } else {
        join_with(mod_labels(k.modifiers) + trigger_labels(k.trigger), " + "@)
    }
}

// --- matching ----------------------------------------------------------------

pub open spec fn spec_matches_key(b: KeyBindView, e: KeyEventView) -> bool {
    match b.trigger {
        TriggerView::Key(k) => spec_mods_match(b.modifiers, e.modifiers) && e.key == k,
        _ => false,
    }
}

pub open spec fn spec_matches_mouse(b: KeyBindView, e: MouseEvent) -> bool {
    match b.trigger {
        TriggerView::Mouse(m) => spec_from_button(e.button) == m && spec_mods_match(
            b.modifiers,
            e.modifiers,
        ),
        _ => false,
    }
}

/// `k` with its first character upper-cased (ASCII only).
pub fn pretty_key(k: &str) -> (r: String)
    ensures
        r@ == spec_pretty_key(k@),
{
    let cs = chars_of(k);
    if cs.len() == 0 {
        return String::new();
    }
    let mut out: Vec<char> = Vec::new();
    out.push(to_ascii_upper(cs[0]));
    let mut i: usize = 1;
    while i < cs.len()
        invariant
            1 <= i <= cs.len(),
            cs@ == k@,
            out@ == seq![ascii_upper(cs@[0])] + cs@.subrange(1, i as int),
        decreases cs.len() - i,
    {
        out.push(cs[i]);
        i = i + 1;
        assert(out@ =~= seq![ascii_upper(cs@[0])] + cs@.subrange(1, i as int));
    }
    assert(cs@.subrange(1, cs@.len() as int) =~= cs@.drop_first());
    string_of(&out)
}

impl KeyBind {
    /// The binding that nothing triggers.
    pub fn unbound() -> (r: KeyBind)
        ensures
            r@ == unbound_view(),
    {
        Self::default()
    }

    /// True if nothing triggers this binding.
    pub fn is_unbound(&self) -> (r: bool)
        ensures
            r == (self.trigger@ is Unset),
    {
        match self.trigger {
            Trigger::Unset => true,
            _ => false,
        }
    }

    /// A copy of this binding.
    pub fn duplicate(&self) -> (r: KeyBind)
        ensures
            r@ == self@,
    {
        let trigger = match &self.trigger {
            Trigger::Unset => Trigger::Unset,
            Trigger::Key(k) => Trigger::Key(copy_string(k)),
            Trigger::Mouse(m) => Trigger::Mouse(*m),
        };
        KeyBind { modifiers: self.modifiers, trigger }
    }

    /// The binding that a key press would record.
    pub fn from_key(event: &KeyEvent) -> (r: KeyBind)
        ensures
            r@ == (KeyBindView {
                modifiers: BindModifiers::from_gpui_spec(event.modifiers),
                trigger: TriggerView::Key(event.key@),
            }),
    {
        KeyBind {
            modifiers: BindModifiers::from_gpui(event.modifiers),
            trigger: Trigger::Key(copy_string(&event.key)),
        }
    }

    /// The binding that a mouse press would record.
    pub fn from_mouse(event: &MouseEvent) -> (r: KeyBind)
        ensures
            r@ == (KeyBindView {
                modifiers: BindModifiers::from_gpui_spec(event.modifiers),
                trigger: TriggerView::Mouse(spec_from_button(event.button)),
            }),
    {
        KeyBind {
            modifiers: BindModifiers::from_gpui(event.modifiers),
            trigger: Trigger::Mouse(MouseTrigger::from_button(event.button)),
        }
    }

    /// True if this is a key binding that `event` fires.
    pub fn matches_key(&self, event: &KeyEvent) -> (r: bool)
        ensures
            r == spec_matches_key(self@, event@),
    {
        match &self.trigger {
            Trigger::Key(k) => self.modifiers.matches(event.modifiers) && str_eq(
                event.key.as_str(),
                k.as_str(),
            ),
            _ => false,
        }
    }

    /// True if this is a mouse binding that `event` fires.
    pub fn matches_mouse(&self, event: &MouseEvent) -> (r: bool)
        ensures
            r == spec_matches_mouse(self@, *event),
    {
        match self.trigger {
            Trigger::Mouse(m) => MouseTrigger::from_button(event.button) == m
                && self.modifiers.matches(event.modifiers),
            _ => false,
        }
    }

    /// Serialize as a hyphen-joined token string, matching `parse`. An
    /// unbound binding round-trips as `""`.
    pub fn unparse(&self) -> (r: String)
        ensures
            r@ == spec_unparse(self@),
    {
        if self.is_unbound() {
            return String::new();
        }
        let m = self.modifiers;
        let mut parts: Vec<String> = Vec::new();
        if m.ctrl {
            parts.push(copy_str("ctrl"));
        }
        let ghost p1 = views(parts@);
        if m.alt {
            parts.push(copy_str("alt"));
        }
        let ghost p2 = views(parts@);
        if m.shift {
            parts.push(copy_str("shift"));
        }
        let ghost p3 = views(parts@);
        if m.super_key {
            parts.push(copy_str("super"));
        }
        let ghost p4 = views(parts@);
        assert(p4 =~= mod_tokens(m)) by {
            assert(p1 =~= (if m.ctrl {
                seq!["ctrl"@]
            } else {
                Seq::<Seq<char>>::empty()
            }));
        }
        match &self.trigger {
            Trigger::Unset => {},
            Trigger::Key(k) => {
                parts.push(copy_string(k));
            },
            Trigger::Mouse(t) => {
                parts.push(copy_str("mouse"));
                parts.push(copy_str(t.token()));
            },
        }
        assert(views(parts@) =~= mod_tokens(m) + trigger_tokens(self.trigger@));
        let r = join_strings(&parts, "-");
        proof {
            reveal_strlit("-");
        }
        assert("-"@ =~= seq!['-']);
        r
    }

    /// The label shown in the settings menu (`Display`).
    #[verifier::rlimit(40)]
    pub fn display(&self) -> (r: String)
        ensures
            r@ == spec_display(self@),
    {
        if self.is_unbound() {
            return copy_str("Unbound");
        }
        let m = self.modifiers;
        let mut parts: Vec<String> = Vec::new();
        if m.ctrl {
            parts.push(copy_str("Ctrl"));
        }
        let ghost p1 = views(parts@);
        if m.alt {
            parts.push(copy_str("Alt"));
        }
        let ghost p2 = views(parts@);
        if m.shift {
            parts.push(copy_str("Shift"));
        }
        let ghost p3 = views(parts@);
        if m.super_key {
            parts.push(copy_str("Super"));
        }
        let ghost p4 = views(parts@);
        assert(p4 =~= mod_labels(m)) by {
            assert(p1 =~= (if m.ctrl {
                seq!["Ctrl"@]
            } else {
                Seq::<Seq<char>>::empty()
            }));
        }
        match &self.trigger {
            Trigger::Unset => {},
            Trigger::Key(k) => {
                parts.push(pretty_key(k.as_str()));
            },
            Trigger::Mouse(t) => {
                parts.push(copy_str(t.label()));
            },
        }
        assert(views(parts@) =~= mod_labels(m) + trigger_labels(self.trigger@));
        join_strings(&parts, " + ")
    }

    /// Reads the configuration form (see `spec_parse`); the error is the
    /// message the settings loader reports.
    pub fn parse(s: &str) -> (r: Result<KeyBind, String>)
        ensures
            match (r, spec_parse(s@)) {
                (Ok(k), Ok(v)) => k@ == v,
                (Err(e), Err(msg)) => e@ == msg,
                _ => false,
            },
    {
        if s.is_empty() {
            return Ok(KeyBind::unbound());
        }
        let cs = chars_of(s);
        let tokens = split_chars(&cs, '-');
        let ghost all = char_views(tokens@);
        let mut mods = BindModifiers::default();
        let mut i: usize = 0;
        let mut stop = false;
        assert(all.subrange(0, all.len() as int) =~= all);
        while i < tokens.len() && !stop
            invariant
                all == char_views(tokens@),
                all.len() == tokens@.len(),
                i <= tokens.len(),
                strip_mods(all, no_mods()) == strip_mods(all.subrange(i as int, all.len() as int), mods),
                stop ==> i < tokens.len() && !is_mod_word(all[i as int]),
            decreases 2 * (tokens.len() - i) + (if stop { 0int } else { 1int }),
        {
            let t = &tokens[i];
            let ghost rest = all.subrange(i as int, all.len() as int);
            assert(rest.drop_first() =~= all.subrange(i + 1, all.len() as int));
            assert(rest[0] == all[i as int]);
            if chars_eq_str(t, "ctrl") {
                mods.ctrl = true;
                i = i + 1;
            } else if chars_eq_str(t, "alt") {
                mods.alt = true;
                i = i + 1;
            } else if chars_eq_str(t, "shift") {
                mods.shift = true;
                i = i + 1;
            } else if chars_eq_str(t, "super") {
                mods.super_key = true;
                i = i + 1;
            } else {
                stop = true;
            }
        }
        let ghost rest = all.subrange(i as int, all.len() as int);
        assert(strip_mods(rest, mods) == (rest, mods));
        let n = tokens.len() - i;
        if n == 0 {
            Err(concat2("empty keybind: ", s))
        } else if n == 2 && chars_eq_str(&tokens[i], "mouse") {
            assert(rest[0] == all[i as int]);
            assert(rest[1] == all[i + 1]);
            match MouseTrigger::from_token_chars(&tokens[i + 1]) {
                Some(t) => Ok(KeyBind { modifiers: mods, trigger: Trigger::Mouse(t) }),
                None => {
                    let btn = string_of(&tokens[i + 1]);
                    Err(concat2("unknown mouse button: ", btn.as_str()))
                },
            }
        } else if n == 1 {
            assert(rest[0] == all[i as int]);
            Ok(KeyBind { modifiers: mods, trigger: Trigger::Key(string_of(&tokens[i])) })
        } else {
            Err(concat2("unrecognized keybind: ", s))
        }
    }
}

impl BindModifiers {
    pub open spec fn from_gpui_spec(m: Modifiers) -> BindModifiers {
        BindModifiers { ctrl: m.control, alt: m.alt, shift: m.shift, super_key: m.platform }
    }
}

impl core::str::FromStr for KeyBind {
    type Err = String;

    /// Reads a binding from its configuration form (see `KeyBind::parse`).
    fn from_str(s: &str) -> (r: Result<KeyBind, String>)
        ensures
            match (r, spec_parse(s@)) {
                (Ok(k), Ok(v)) => k@ == v,
                (Err(e), Err(msg)) => e@ == msg,
                _ => false,
            },
    {
        KeyBind::parse(s)
    }
}

/// A single action ↔ trigger pair. Several bindings may share an action;
/// dispatch picks the first binding whose trigger matches.
#[derive(Clone, Debug, PartialEq, Eq)]
pub struct Binding {
    pub action: Action,
    pub bind: KeyBind,
}

pub struct BindingView {
    pub action: ActionView,
    pub bind: KeyBindView,
}

impl View for Binding {
    type V = BindingView;

    open spec fn view(&self) -> BindingView {
        BindingView { action: self.action@, bind: self.bind@ }
    }
}

impl Default for Binding {
    fn default() -> (r: Binding)
        ensures
            r@ == (BindingView { action: ActionView::ToggleSettings, bind: unbound_view() }),
    {
        Binding { action: Action::default(), bind: KeyBind::default() }
    }
}

impl Binding {
    /// A copy of this binding.
    pub fn duplicate(&self) -> (r: Binding)
        ensures
            r@ == self@,
    {
        Binding { action: self.action.duplicate(), bind: self.bind.duplicate() }
    }
}

/// The configured bindings, in priority order.
#[derive(Clone, Debug, PartialEq, Eq)]
pub struct Keybinds {
    pub bindings: Vec<Binding>,
}

pub open spec fn binding_views(v: Seq<Binding>) -> Seq<BindingView> {
    v.map_values(|b: Binding| b@)
}

/// Index of the first binding fired by a key event, if any.
pub open spec fn first_key_match(bs: Seq<BindingView>, e: KeyEventView) -> Option<int> {
    if exists|i: int| 0 <= i < bs.len() && spec_matches_key(bs[i].bind, e) {
        Some(
            choose|i: int|
                0 <= i < bs.len() && spec_matches_key(bs[i].bind, e) && (forall|j: int|
                    0 <= j < i ==> !spec_matches_key(#[trigger] bs[j].bind, e)),
        )
    } else {
        None
    }
}

/// Index of the first binding fired by a mouse event, if any.
pub open spec fn first_mouse_match(bs: Seq<BindingView>, e: MouseEvent) -> Option<int> {
    if exists|i: int| 0 <= i < bs.len() && spec_matches_mouse(bs[i].bind, e) {
        Some(
            choose|i: int|
                0 <= i < bs.len() && spec_matches_mouse(bs[i].bind, e) && (forall|j: int|
                    0 <= j < i ==> !spec_matches_mouse(#[trigger] bs[j].bind, e)),
        )
    } else {
        None
    }
}

fn ctrl_key(key: &str) -> (r: KeyBind)
    ensures
        r@ == (KeyBindView {
            modifiers: BindModifiers { ctrl: true, alt: false, shift: false, super_key: false },
            trigger: TriggerView::Key(key@),
        }),
{
    KeyBind {
        modifiers: BindModifiers { ctrl: true, alt: false, shift: false, super_key: false },
        trigger: Trigger::Key(copy_str(key)),
    }
}

pub open spec fn ctrl_view(k: Seq<char>) -> KeyBindView {
    KeyBindView {
        modifiers: BindModifiers { ctrl: true, alt: false, shift: false, super_key: false },
        trigger: TriggerView::Key(k),
    }
}

impl Default for Keybinds {
    /// Ctrl+, toggles the settings, Ctrl+q closes, Ctrl+r runs `echo hello`.
    fn default() -> (r: Keybinds)
        ensures
            binding_views(r.bindings@) == seq![
                BindingView { action: ActionView::ToggleSettings, bind: ctrl_view(","@) },
                BindingView { action: ActionView::Close, bind: ctrl_view("q"@) },
                BindingView {
                    action: ActionView::RunCommand("echo hello"@),
                    bind: ctrl_view("r"@),
                },
            ],
    {
        let mut bindings: Vec<Binding> = Vec::new();
        bindings.push(Binding { action: Action::ToggleSettings, bind: ctrl_key(",") });
        bindings.push(Binding { action: Action::Close, bind: ctrl_key("q") });
        bindings.push(
            Binding { action: Action::RunCommand(copy_str("echo hello")), bind: ctrl_key("r") },
        );
        let r = Keybinds { bindings };
        assert(binding_views(r.bindings@) =~= seq![
            BindingView { action: ActionView::ToggleSettings, bind: ctrl_view(","@) },
            BindingView { action: ActionView::Close, bind: ctrl_view("q"@) },
            BindingView {
                action: ActionView::RunCommand("echo hello"@),
                bind: ctrl_view("r"@),
            },
        ]);
        r
    }
}

impl Keybinds {
    /// The action of the first binding fired by a key press.
    pub fn match_key(&self, event: &KeyEvent) -> (r: Option<Action>)
        ensures
            match first_key_match(binding_views(self.bindings@), event@) {
                Some(i) => r.is_some() && r.unwrap()@ == self.bindings@[i].action@,
                None => r.is_none(),
            },
    {
        let ghost bs = binding_views(self.bindings@);
        let mut i: usize = 0;
        while i < self.bindings.len()
            invariant
                bs == binding_views(self.bindings@),
                i <= self.bindings.len(),
                forall|j: int| 0 <= j < i ==> !spec_matches_key(#[trigger] bs[j].bind, event@),
            decreases self.bindings.len() - i,
        {
            if self.bindings[i].bind.matches_key(event) {
                assert(spec_matches_key(bs[i as int].bind, event@));
                let ghost w = first_key_match(bs, event@).unwrap();
                assert(w == i) by {
                    if w < i {
                        assert(!spec_matches_key(bs[w].bind, event@));
                    } else if w > i {
                        assert(!spec_matches_key(bs[i as int].bind, event@));
                    }
                }
                return Some(self.bindings[i].action.duplicate());
            }
            i = i + 1;
        }
        assert(!exists|i: int| 0 <= i < bs.len() && spec_matches_key(bs[i].bind, event@));
        None
    }

    /// The action of the first binding fired by a mouse press.
    pub fn match_mouse(&self, event: &MouseEvent) -> (r: Option<Action>)
        ensures
            match first_mouse_match(binding_views(self.bindings@), *event) {
                Some(i) => r.is_some() && r.unwrap()@ == self.bindings@[i].action@,
                None => r.is_none(),
            },
    {
        let ghost bs = binding_views(self.bindings@);
        let mut i: usize = 0;
        while i < self.bindings.len()
            invariant
                bs == binding_views(self.bindings@),
                i <= self.bindings.len(),
                forall|j: int| 0 <= j < i ==> !spec_matches_mouse(#[trigger] bs[j].bind, *event),
            decreases self.bindings.len() - i,
        {
            if self.bindings[i].bind.matches_mouse(event) {
                assert(spec_matches_mouse(bs[i as int].bind, *event));
                let ghost w = first_mouse_match(bs, *event).unwrap();
                assert(w == i) by {
                    if w < i {
                        assert(!spec_matches_mouse(bs[w].bind, *event));
                    } else if w > i {
                        assert(!spec_matches_mouse(bs[i as int].bind, *event));
                    }
                }
                return Some(self.bindings[i].action.duplicate());
            }
            i = i + 1;
        }
        assert(!exists|i: int| 0 <= i < bs.len() && spec_matches_mouse(bs[i].bind, *event));
        None
    }
}

/// True if a key event is the "unbind & exit recording" gesture (Ctrl+Esc).
pub fn is_unbind_gesture(event: &KeyEvent) -> (r: bool)
    ensures
        r == (event.key@ == "escape"@ && event.modifiers.control && !event.modifiers.alt
            && !event.modifiers.shift && !event.modifiers.platform),
{
    let m = event.modifiers;
    str_eq(event.key.as_str(), "escape") && m.control && !m.alt && !m.shift && !m.platform
}

/// True if a key event is the "cancel recording" gesture (bare Esc).
pub fn is_cancel_gesture(event: &KeyEvent) -> (r: bool)
    ensures
        r == (!event.modifiers.spec_modified() && event.key@ == "escape"@),
{
    !event.modifiers.modified() && str_eq(event.key.as_str(), "escape")
}

pub open spec fn spec_is_modifier_key(k: Seq<char>) -> bool {
    k == "shift"@ || k == "control"@ || k == "ctrl"@ || k == "alt"@ || k == "platform"@ || k
        == "cmd"@ || k == "super"@ || k == "function"@ || k == "fn"@
}

/// True for the names of keys that are only modifiers; such key presses are
/// not recorded as bindings.
pub fn is_modifier_key(key: &str) -> (r: bool)
    ensures
        r == spec_is_modifier_key(key@),
{
    str_eq(key, "shift") || str_eq(key, "control") || str_eq(key, "ctrl") || str_eq(key, "alt")
        || str_eq(key, "platform") || str_eq(key, "cmd") || str_eq(key, "super") || str_eq(
        key,
        "function",
    ) || str_eq(key, "fn")
}

// ---------------------------------------------------------------------------
// Laws of the textual form
// ---------------------------------------------------------------------------

proof fn reveal_words()
    ensures
        "ctrl"@ == seq!['c', 't', 'r', 'l'],
        "alt"@ == seq!['a', 'l', 't'],
        "shift"@ == seq!['s', 'h', 'i', 'f', 't'],
        "super"@ == seq!['s', 'u', 'p', 'e', 'r'],
        "mouse"@ == seq!['m', 'o', 'u', 's', 'e'],
        "left"@ == seq!['l', 'e', 'f', 't'],
        "right"@ == seq!['r', 'i', 'g', 'h', 't'],
        "middle"@ == seq!['m', 'i', 'd', 'd', 'l', 'e'],
        "back"@ == seq!['b', 'a', 'c', 'k'],
        "forward"@ == seq!['f', 'o', 'r', 'w', 'a', 'r', 'd'],
{
    reveal_strlit("ctrl");
    reveal_strlit("alt");
    reveal_strlit("shift");
    reveal_strlit("super");
    reveal_strlit("mouse");
    reveal_strlit("left");
    reveal_strlit("right");
    reveal_strlit("middle");
    reveal_strlit("back");
    reveal_strlit("forward");
    assert("ctrl"@ =~= seq!['c', 't', 'r', 'l']);
    assert("alt"@ =~= seq!['a', 'l', 't']);
    assert("shift"@ =~= seq!['s', 'h', 'i', 'f', 't']);
    assert("super"@ =~= seq!['s', 'u', 'p', 'e', 'r']);
    assert("mouse"@ =~= seq!['m', 'o', 'u', 's', 'e']);
    assert("left"@ =~= seq!['l', 'e', 'f', 't']);
    assert("right"@ =~= seq!['r', 'i', 'g', 'h', 't']);
    assert("middle"@ =~= seq!['m', 'i', 'd', 'd', 'l', 'e']);
    assert("back"@ =~= seq!['b', 'a', 'c', 'k']);
    assert("forward"@ =~= seq!['f', 'o', 'r', 'w', 'a', 'r', 'd']);
}

/// Every button name reads back as its button.
pub proof fn law_mouse_token_roundtrip(t: MouseTrigger)
    ensures
        spec_from_token(spec_token(t)) == Some(t),
{
    reveal_words();
}

proof fn lemma_strip_skip(ws: Seq<Seq<char>>, w: Seq<char>, rest: Seq<Seq<char>>, m0: BindModifiers)
    requires
        ws == seq![w] || ws.len() == 0,
        ws.len() == 1 ==> is_mod_word(w),
    ensures
        strip_mods(ws + rest, m0) == strip_mods(
            rest,
            if ws.len() == 0 {
                m0
            } else if w == "ctrl"@ {
                BindModifiers { ctrl: true, alt: m0.alt, shift: m0.shift, super_key: m0.super_key }
            } else if w == "alt"@ {
                BindModifiers { ctrl: m0.ctrl, alt: true, shift: m0.shift, super_key: m0.super_key }
            } else if w == "shift"@ {
                BindModifiers { ctrl: m0.ctrl, alt: m0.alt, shift: true, super_key: m0.super_key }
            } else {
                BindModifiers { ctrl: m0.ctrl, alt: m0.alt, shift: m0.shift, super_key: true }
            },
        ),
{
    if ws.len() == 0 {
        assert(ws + rest =~= rest);
    } else {
        assert((ws + rest).drop_first() =~= rest);
        assert((ws + rest)[0] == w);
    }
}

/// The modifier words produced by `unparse` are read back as the same modifiers.
proof fn lemma_strip_canonical(m: BindModifiers, tt: Seq<Seq<char>>)
    requires
        tt.len() > 0,
        !is_mod_word(tt[0]),
    ensures
        strip_mods(mod_tokens(m) + tt, no_mods()) == (tt, m),
{
    reveal_words();
    let e = Seq::<Seq<char>>::empty();
    let c = if m.ctrl { seq!["ctrl"@] } else { e };
    let a = if m.alt { seq!["alt"@] } else { e };
    let sh = if m.shift { seq!["shift"@] } else { e };
    let su = if m.super_key { seq!["super"@] } else { e };
    assert(mod_tokens(m) + tt =~= c + (a + (sh + (su + tt))));
    let m1 = BindModifiers { ctrl: m.ctrl, alt: false, shift: false, super_key: false };
    let m2 = BindModifiers { ctrl: m.ctrl, alt: m.alt, shift: false, super_key: false };
    let m3 = BindModifiers { ctrl: m.ctrl, alt: m.alt, shift: m.shift, super_key: false };
    lemma_strip_skip(c, "ctrl"@, a + (sh + (su + tt)), no_mods());
    lemma_strip_skip(a, "alt"@, sh + (su + tt), m1);
    lemma_strip_skip(sh, "shift"@, su + tt, m2);
    lemma_strip_skip(su, "super"@, tt, m3);
}

/// A bound binding reads back from its configuration form unchanged when its
/// key name is non-empty, holds no `-` and is not a modifier word; the
/// unbound binding (without modifiers) reads back from the empty string.
pub proof fn law_parse_unparse_roundtrip(k: KeyBindView)
    requires
        k.trigger is Unset ==> k.modifiers == no_mods(),
        k.trigger matches TriggerView::Key(key) ==> key.len() > 0 && !key.contains('-')
            && !is_mod_word(key),
    ensures
        spec_parse(spec_unparse(k)) == Ok::<KeyBindView, Seq<char>>(k),
{
    reveal_words();
    if k.trigger is Unset {
        assert(spec_unparse(k).len() == 0);
    } else {
        let tt = trigger_tokens(k.trigger);
        let parts = mod_tokens(k.modifiers) + tt;
        assert(tt.len() > 0 && !is_mod_word(tt[0]));
        assert forall|i: int| 0 <= i < parts.len() implies !(#[trigger] parts[i]).contains('-') by {
            let p = parts[i];
            if p.contains('-') {
                let j = choose|j: int| 0 <= j < p.len() && p[j] == '-';
                assert(p[j] == '-');
            }
        }
        lemma_split_join(parts, '-');
        let s = spec_unparse(k);
        assert(s.len() > 0) by {
            if parts.len() == 1 {
                assert(s == parts[0]);
            } else {
                assert(s == join_with(parts.drop_last(), seq!['-']) + seq!['-'] + parts.last());
            }
        }
        lemma_strip_canonical(k.modifiers, tt);
        match k.trigger {
            TriggerView::Mouse(t) => {
                law_mouse_token_roundtrip(t);
            },
            _ => {},
        }
    }
}


/// Text that reads as a binding writes back as the same text when the words
/// before its trigger are the binding's modifier words, each once and in the
/// order ctrl, alt, shift, super (the empty text, the unbound binding,
/// included).
pub proof fn law_canonical_text_roundtrip(s: Seq<char>, k: KeyBindView)
    requires
        spec_parse(s) == Ok::<KeyBindView, Seq<char>>(k),
        split_on(s, '-') == mod_tokens(k.modifiers) + strip_mods(split_on(s, '-'), no_mods()).0,
    ensures
        spec_unparse(k) == s,
{
    reveal_words();
    if s.len() > 0 {
        let ts = split_on(s, '-');
        let (rest, m) = strip_mods(ts, no_mods());
        assert(k.modifiers == m);
        assert(trigger_tokens(k.trigger) =~= rest) by {
            if rest.len() == 2 && rest[0] == "mouse"@ {
                let t = spec_from_token(rest[1]).unwrap();
                assert(spec_token(t) == rest[1]);
            }
        }
        assert(!(k.trigger is Unset));
        lemma_join_split(s, '-');
    }
}

proof fn lemma_first_key_exists(bs: Seq<BindingView>, e: KeyEventView, w: int)
    requires
        0 <= w < bs.len(),
        spec_matches_key(bs[w].bind, e),
    ensures
        exists|i: int|
            0 <= i < bs.len() && spec_matches_key(bs[i].bind, e) && (forall|j: int|
                0 <= j < i ==> !spec_matches_key(#[trigger] bs[j].bind, e)),
    decreases w,
{
    if !(forall|j: int| 0 <= j < w ==> !spec_matches_key(#[trigger] bs[j].bind, e)) {
        let v = choose|j: int| 0 <= j < w && spec_matches_key(bs[j].bind, e);
        lemma_first_key_exists(bs, e, v);
    }
}

/// A binding fires for a press exactly when the press is its trigger and
/// every modifier state of the press (control, alt, shift, platform) equals
/// the binding's: holding one modifier more or less than the binding names
/// fires nothing. So a press dispatches to the first binding with its key (or
/// button) and exactly its modifiers, and to nothing if there is none.
pub proof fn law_bindings_need_exact_modifiers(
    b: KeyBindView,
    e: KeyEventView,
    m: MouseEvent,
    bs: Seq<BindingView>,
)
    ensures
        spec_matches_key(b, e) <==> (b.trigger == TriggerView::Key(e.key) && b.modifiers.ctrl
            == e.modifiers.control && b.modifiers.alt == e.modifiers.alt && b.modifiers.shift
            == e.modifiers.shift && b.modifiers.super_key == e.modifiers.platform),
        spec_matches_mouse(b, m) <==> (b.trigger == TriggerView::Mouse(spec_from_button(m.button))
            && b.modifiers.ctrl == m.modifiers.control && b.modifiers.alt == m.modifiers.alt
            && b.modifiers.shift == m.modifiers.shift && b.modifiers.super_key
            == m.modifiers.platform),
        first_key_match(bs, e) matches Some(i) ==> 0 <= i < bs.len() && bs[i].bind.trigger
            == TriggerView::Key(e.key) && bs[i].bind.modifiers.ctrl == e.modifiers.control
            && bs[i].bind.modifiers.alt == e.modifiers.alt && bs[i].bind.modifiers.shift
            == e.modifiers.shift && bs[i].bind.modifiers.super_key == e.modifiers.platform,
        first_key_match(bs, e) is None ==> forall|j: int|
            0 <= j < bs.len() && (#[trigger] bs[j]).bind.trigger == TriggerView::Key(e.key)
                ==> !(bs[j].bind.modifiers.ctrl == e.modifiers.control && bs[j].bind.modifiers.alt
                == e.modifiers.alt && bs[j].bind.modifiers.shift == e.modifiers.shift
                && bs[j].bind.modifiers.super_key == e.modifiers.platform),
{
    if exists|i: int| 0 <= i < bs.len() && spec_matches_key(bs[i].bind, e) {
        let w = choose|i: int| 0 <= i < bs.len() && spec_matches_key(bs[i].bind, e);
        lemma_first_key_exists(bs, e, w);
    }
    if first_key_match(bs, e) is None {
        assert forall|j: int|
            0 <= j < bs.len() && (#[trigger] bs[j]).bind.trigger == TriggerView::Key(e.key)
                implies !(bs[j].bind.modifiers.ctrl == e.modifiers.control
            && bs[j].bind.modifiers.alt == e.modifiers.alt && bs[j].bind.modifiers.shift
            == e.modifiers.shift && bs[j].bind.modifiers.super_key == e.modifiers.platform) by {
            assert(!spec_matches_key(bs[j].bind, e));
        }
    }
}

// ---------------------------------------------------------------------------
// Editing the binding list
// ---------------------------------------------------------------------------

impl Keybinds {
    /// Sets the trigger of binding `idx`; `false` (and no change) when there
    /// is no such binding, e.g. it was removed while recording.
    pub fn set_bind(&mut self, idx: usize, bind: KeyBind) -> (done: bool)
        ensures
            done == (idx < old(self).bindings@.len()),
            done ==> binding_views(final(self).bindings@) == binding_views(
                old(self).bindings@,
            ).update(
                idx as int,
                BindingView { action: old(self).bindings@[idx as int].action@, bind: bind@ },
            ),
            !done ==> final(self).bindings@ == old(self).bindings@,
    {
        if idx >= self.bindings.len() {
            return false;
        }
        let ghost before = binding_views(self.bindings@);
        let mut b = self.bindings.remove(idx);
        b.bind = bind;
        self.bindings.insert(idx, b);
        assert(binding_views(self.bindings@) =~= before.update(
            idx as int,
            BindingView { action: old(self).bindings@[idx as int].action@, bind: bind@ },
        ));
        true
    }

    /// Sets the action of binding `idx`; `false` (and no change) when there
    /// is no such binding.
    pub fn set_action(&mut self, idx: usize, action: Action) -> (done: bool)
        ensures
            done == (idx < old(self).bindings@.len()),
            done ==> binding_views(final(self).bindings@) == binding_views(
                old(self).bindings@,
            ).update(
                idx as int,
                BindingView { action: action@, bind: old(self).bindings@[idx as int].bind@ },
            ),
            !done ==> final(self).bindings@ == old(self).bindings@,
    {
        if idx >= self.bindings.len() {
            return false;
        }
        let ghost before = binding_views(self.bindings@);
        let ghost a = action@;
        let mut b = self.bindings.remove(idx);
        b.action = action;
        self.bindings.insert(idx, b);
        assert(binding_views(self.bindings@) =~= before.update(
            idx as int,
            BindingView { action: a, bind: old(self).bindings@[idx as int].bind@ },
        ));
        true
    }

    /// Appends an unbound binding with the default action.
    pub fn add_binding(&mut self)
        ensures
            binding_views(final(self).bindings@) == binding_views(old(self).bindings@).push(
                BindingView { action: ActionView::ToggleSettings, bind: unbound_view() },
            ),
    {
        let ghost before = binding_views(self.bindings@);
        self.bindings.push(Binding::default());
        assert(binding_views(self.bindings@) =~= before.push(
            BindingView { action: ActionView::ToggleSettings, bind: unbound_view() },
        ));
    }

    /// Removes binding `idx`, if there is one.
    pub fn remove_binding(&mut self, idx: usize)
        ensures
            idx < old(self).bindings@.len() ==> final(self).bindings@ == old(
                self,
            ).bindings@.remove(idx as int),
            idx >= old(self).bindings@.len() ==> final(self).bindings@ == old(self).bindings@,
    {
        if idx < self.bindings.len() {
            self.bindings.remove(idx);
        }
    }
}

/// Adding a binding (`add_binding`, which leaves `after`) and then removing
/// the last one (`remove_binding` at the old length) gives back the bindings
/// there were.
pub proof fn law_add_then_remove(before: Seq<Binding>, after: Seq<Binding>)
    requires
        binding_views(after) == binding_views(before).push(
            BindingView { action: ActionView::ToggleSettings, bind: unbound_view() },
        ),
    ensures
        binding_views(after.remove(before.len() as int)) == binding_views(before),
{
    let n = before.len() as int;
    let rest = after.remove(n);
    assert(binding_views(after).len() == after.len());
    assert(binding_views(before).len() == n);
    assert(binding_views(rest).len() == n);
    assert forall|i: int| 0 <= i < n implies #[trigger] binding_views(rest)[i] == binding_views(
        before,
    )[i] by {
        assert(rest[i] == after[i]);
        assert(binding_views(after)[i] == after[i]@);
        assert(binding_views(after)[i] == binding_views(before).push(
            BindingView { action: ActionView::ToggleSettings, bind: unbound_view() },
        )[i]);
    }
    assert(binding_views(rest) =~= binding_views(before));
}

/// `s` without its spaces.
pub open spec fn without_spaces(s: Seq<char>) -> Seq<char> {
    s.filter(|c: char| c != ' ')
}

fn remove_spaces(s: &str) -> (r: String)
    ensures
        r@ == without_spaces(s@),
{
    let cs = chars_of(s);
    let mut out: Vec<char> = Vec::new();
    let mut i: usize = 0;
    while i < cs.len()
        invariant
            i <= cs@.len(),
            cs@ == s@,
            out@ == cs@.subrange(0, i as int).filter(|c: char| c != ' '),
        decreases cs@.len() - i,
    {
        let ghost pre = cs@.subrange(0, i as int + 1);
        assert(pre =~= cs@.subrange(0, i as int).push(cs@[i as int]));
        proof {
            cs@.subrange(0, i as int).lemma_filter_push(cs@[i as int], |c: char| c != ' ');
        }
        if cs[i] != ' ' {
            out.push(cs[i]);
        }
        i = i + 1;
    }
    assert(cs@.subrange(0, cs@.len() as int) =~= cs@);
    string_of(&out)
}

/// The words the settings search matches a binding row on: the action's
/// label, and for a bound trigger its display text with and without spaces
/// (`Ctrl + q` and `Ctrl+q`).
pub fn binding_keywords(b: &Binding) -> (r: Vec<String>)
    ensures
        b.bind@.trigger is Unset ==> r@.map_values(|s: String| s@) == seq![
            spec_action_label(b.action@),
        ],
        !(b.bind@.trigger is Unset) ==> r@.map_values(|s: String| s@) == seq![
            spec_action_label(b.action@),
            spec_display(b.bind@),
            without_spaces(spec_display(b.bind@)),
        ],
{
    let mut out: Vec<String> = Vec::new();
    out.push(copy_str(b.action.label()));
    if !b.bind.is_unbound() {
        let shown = b.bind.display();
        let compact = remove_spaces(shown.as_str());
        out.push(shown);
        out.push(compact);
    }
    assert(out@.map_values(|s: String| s@) =~= (if b.bind@.trigger is Unset {
        seq![spec_action_label(b.action@)]
    } else {
        seq![
            spec_action_label(b.action@),
            spec_display(b.bind@),
            without_spaces(spec_display(b.bind@)),
        ]
    }));
    out
}

/// A binding recorded from a key press fires for that same press, and one
/// recorded from a mouse press fires for that press; an unbound binding
/// fires for nothing.
pub proof fn law_recorded_binding_fires(k: KeyEventView, m: MouseEvent)
    ensures
        spec_matches_key(
            KeyBindView {
                modifiers: BindModifiers::from_gpui_spec(k.modifiers),
                trigger: TriggerView::Key(k.key),
            },
            k,
        ),
        spec_matches_mouse(
            KeyBindView {
                modifiers: BindModifiers::from_gpui_spec(m.modifiers),
                trigger: TriggerView::Mouse(spec_from_button(m.button)),
            },
            m,
        ),
        !spec_matches_key(unbound_view(), k),
        !spec_matches_mouse(unbound_view(), m),
{
}

} // verus!
