//! The settings file: its sections and their defaults, where it lives, and
//! where an unreadable one is moved aside.
use vstd::prelude::*;
use crate::keybinds::Keybinds;
use crate::paths::{join_path, parent, spec_join, spec_parent};
use crate::text::{concat2, copy_str, decimal, decimal_string, str_eq};

verus! {

/// Example enum-backed setting rendered as a dropdown: the variant name is
/// the key stored in the file and `message` supplies the label.
#[derive(Clone, Copy, Debug, PartialEq, Eq, Structural, Hash)]
pub enum ExampleChoice {
    First,
    Second,
    Third,
}

pub open spec fn spec_choice_name(c: ExampleChoice) -> Seq<char> {
    match c {
        ExampleChoice::First => "First"@,
        ExampleChoice::Second => "Second"@,
        ExampleChoice::Third => "Third"@,
    }
}

pub open spec fn spec_choice_message(c: ExampleChoice) -> Seq<char> {
    match c {
        ExampleChoice::First => "First option"@,
        ExampleChoice::Second => "Second option"@,
        ExampleChoice::Third => "Third option"@,
    }
}

pub open spec fn spec_choice_from_name(s: Seq<char>) -> Option<ExampleChoice> {
    if s == "First"@ {
        Some(ExampleChoice::First)
    } else if s == "Second"@ {
        Some(ExampleChoice::Second)
    } else if s == "Third"@ {
        Some(ExampleChoice::Third)
    } else {
        None
    }
}

impl Default for ExampleChoice {
    fn default() -> (r: ExampleChoice)
        ensures
            r == ExampleChoice::First,
    {
        ExampleChoice::First
    }
}

impl ExampleChoice {
    /// The key stored in the settings file.
    pub fn name(self) -> (r: &'static str)
        ensures
            r@ == spec_choice_name(self),
    {
        match self {
            ExampleChoice::First => "First",
            ExampleChoice::Second => "Second",
            ExampleChoice::Third => "Third",
        }
    }

    /// The label shown in the dropdown.
    pub fn message(self) -> (r: &'static str)
        ensures
            r@ == spec_choice_message(self),
    {
        match self {
            ExampleChoice::First => "First option",
            ExampleChoice::Second => "Second option",
            ExampleChoice::Third => "Third option",
        }
    }

    /// The choice stored under `s`, if any.
    pub fn from_name(s: &str) -> (r: Option<ExampleChoice>)
        ensures
            r == spec_choice_from_name(s@),
    {
        if str_eq(s, "First") {
            Some(ExampleChoice::First)
        } else if str_eq(s, "Second") {
            Some(ExampleChoice::Second)
        } else if str_eq(s, "Third") {
            Some(ExampleChoice::Third)
        } else {
            None
        }
    }

    /// Every choice, in declaration order.
    pub fn all() -> (r: Vec<ExampleChoice>)
        ensures
            r@ == seq![ExampleChoice::First, ExampleChoice::Second, ExampleChoice::Third],
    {
        let mut v = Vec::new();
        v.push(ExampleChoice::First);
        v.push(ExampleChoice::Second);
        v.push(ExampleChoice::Third);
        assert(v@ =~= seq![ExampleChoice::First, ExampleChoice::Second, ExampleChoice::Third]);
        v
    }
}

/// Every choice reads back from its stored name.
pub proof fn law_choice_name_roundtrip(c: ExampleChoice)
    ensures
        spec_choice_from_name(spec_choice_name(c)) == Some(c),
{
    reveal_strlit("First");
    reveal_strlit("Second");
    reveal_strlit("Third");
    assert("First"@ =~= seq!['F', 'i', 'r', 's', 't']);
    assert("Second"@ =~= seq!['S', 'e', 'c', 'o', 'n', 'd']);
    assert("Third"@ =~= seq!['T', 'h', 'i', 'r', 'd']);
}

/// The general settings page.
#[derive(Clone, Debug, PartialEq, Eq)]
pub struct General {
    pub example_toggle: bool,
    pub example_choice: ExampleChoice,
    pub example_number: u32,
    pub example_text: String,
    pub log_to_file: bool,
}

impl Default for General {
    fn default() -> (r: General)
        ensures
            r.example_toggle,
            r.example_choice == ExampleChoice::First,
            r.example_number == 42,
            r.example_text@ == "hello"@,
            !r.log_to_file,
    {
        General {
            example_toggle: true,
            example_choice: ExampleChoice::default(),
            example_number: 42,
            example_text: copy_str("hello"),
            log_to_file: false,
        }
    }
}

/// The whole settings file: one section per settings page.
#[derive(Clone, Debug, PartialEq, Eq)]
pub struct Config {
    pub general: General,
    pub keybinds: Keybinds,
}

impl Default for Config {
    fn default() -> (r: Config)
        ensures
            r.general.example_toggle,
            r.general.example_choice == ExampleChoice::First,
            r.general.example_number == 42,
            r.general.example_text@ == "hello"@,
            !r.general.log_to_file,
            r.keybinds.bindings@.len() == 3,
    {
        let general = General::default();
        let keybinds = Keybinds::default();
        proof {
            assert(crate::keybinds::binding_views(keybinds.bindings@).len() == 3);
        }
        Config { general, keybinds }
    }
}

/// Runtime facts about the settings file.
#[derive(Clone, Copy, Debug, PartialEq, Eq, Structural)]
pub struct ConfigStatus {
    pub readonly: bool,
}

impl Default for ConfigStatus {
    fn default() -> (r: ConfigStatus)
        ensures
            !r.readonly,
    {
        ConfigStatus { readonly: false }
    }
}

proof fn reveal_config_names()
    ensures
        "madalya"@.len() > 0 && "madalya"@[0] != '/',
        "config.toml"@.len() > 0 && "config.toml"@[0] != '/',
{
    reveal_strlit("madalya");
    reveal_strlit("config.toml");
}

/// The settings file under the user configuration directory `config_dir`.
pub open spec fn spec_config_path_in(config_dir: Seq<char>) -> Seq<char> {
    spec_join(spec_join(config_dir, "madalya"@), "config.toml"@)
}

pub fn config_path_in(config_dir: &str) -> (r: String)
    ensures
        r@ == spec_config_path_in(config_dir@),
{
    proof {
        reveal_config_names();
    }
    let app = join_path(config_dir, crate::library::app_id());
    join_path(app.as_str(), "config.toml")
}

/// The user configuration directory of the platform (`dirs::config_dir`),
/// as text (`None` also when its name is not valid Unicode, rather than an
/// altered path); it depends on the environment, so nothing is promised of
/// it.
#[verifier::external_body]
fn platform_config_dir() -> (r: Option<String>) {
    match dirs::config_dir() {
        Some(p) => p.into_os_string().into_string().ok(),
        None => None,
    }
}

/// Absolute path of the settings file; `None` when the platform has no user
/// configuration directory.
pub fn config_path() -> (r: Option<String>)
    ensures
        r matches Some(p) ==> exists|d: Seq<char>| p@ == spec_config_path_in(d),
{
    match platform_config_dir() {
        Some(d) => Some(config_path_in(d.as_str())),
        None => None,
    }
}

/// File name an unparseable settings file is moved to: `non-parsable-<ts>.toml`.
pub open spec fn spec_backup_name(ts: nat) -> Seq<char> {
    "non-parsable-"@ + decimal(ts) + ".toml"@
}

/// Where an unparseable settings file at `config_path` is moved: beside it
/// (or in `.` when the path has no parent), named by the Unix time `ts`.
pub open spec fn spec_backup_path(config_path: Seq<char>, ts: nat) -> Seq<char> {
    match spec_parent(config_path) {
        Some(p) => spec_join(p, spec_backup_name(ts)),
        None => spec_join("."@, spec_backup_name(ts)),
    }
}

pub fn backup_file_name(ts: u64) -> (r: String)
    ensures
        r@ == spec_backup_name(ts as nat),
{
    let digits = decimal_string(ts);
    let mut r = concat2("non-parsable-", digits.as_str());
    r.append(".toml");
    r
}

pub fn backup_path_for(config_path: &str, ts: u64) -> (r: String)
    ensures
        r@ == spec_backup_path(config_path@, ts as nat),
{
    let name = backup_file_name(ts);
    proof {
        reveal_strlit("non-parsable-");
        assert(name@[0] == 'n');
    }
    match parent(config_path) {
        Some(p) => join_path(p.as_str(), name.as_str()),
        None => join_path(".", name.as_str()),
    }
}

/// What reading the settings file gave.
#[derive(Clone, Copy, Debug, PartialEq, Eq, Structural)]
pub enum ConfigRead {
    /// It was read and parsed.
    Parsed,
    /// It was read but does not parse.
    Unparseable,
    /// There is no such file.
    Missing,
    /// It could not be read.
    Unreadable,
}

/// What loading the settings does with what was read.
#[derive(Clone, Copy, Debug, PartialEq, Eq, Structural)]
pub enum ConfigLoad {
    /// Use the parsed settings.
    UseParsed,
    /// Move the file aside (to `backup_path_for`), then write and use the
    /// defaults.
    BackUpThenDefaults,
    /// Write and use the defaults.
    WriteDefaults,
}

/// Start-up loading: parsed settings are used; an unparseable file is moved
/// aside before the defaults are written, so that it is never overwritten;
/// a missing or unreadable file gives the defaults.
pub fn load_step(read: ConfigRead) -> (r: ConfigLoad)
    ensures
        read == ConfigRead::Parsed <==> r == ConfigLoad::UseParsed,
        read == ConfigRead::Unparseable <==> r == ConfigLoad::BackUpThenDefaults,
        (read == ConfigRead::Missing || read == ConfigRead::Unreadable) <==> r
            == ConfigLoad::WriteDefaults,
{
    match read {
        ConfigRead::Parsed => ConfigLoad::UseParsed,
        ConfigRead::Unparseable => ConfigLoad::BackUpThenDefaults,
        ConfigRead::Missing => ConfigLoad::WriteDefaults,
        ConfigRead::Unreadable => ConfigLoad::WriteDefaults,
    }
}

/// A change of the settings file seen while running is applied only when
/// it parses (an editor may be half-way through saving); nothing is moved
/// aside or written.
pub fn reload_applies(read: ConfigRead) -> (r: bool)
    ensures
        r == (read == ConfigRead::Parsed),
{
    match read {
        ConfigRead::Parsed => true,
        _ => false,
    }
}

/// Whether a path setting names a directory or a file.
#[derive(Clone, Copy, Debug, PartialEq, Eq, Structural)]
pub enum PathKind {
    Dir,
    File,
}

/// A path typed into a settings field: trimmed, and no path when blank.
pub fn path_setting(raw: &str) -> (r: Option<String>)
    ensures
        r.deep_view() == crate::library::spec_normalize(Some(raw@)),
{
    crate::library::normalize_text(Some(raw))
}

/// The notice shown when a path setting names nothing of its kind.
pub fn missing_path_message(kind: PathKind, path: &str) -> (r: String)
    ensures
        r@ == "No such "@ + (match kind {
            PathKind::Dir => "directory"@,
            PathKind::File => "file"@,
        }) + ": "@ + path@,
{
    let what = match kind {
        PathKind::Dir => "directory",
        PathKind::File => "file",
    };
    let a = concat2("No such ", what);
    let b = concat2(a.as_str(), ": ");
    concat2(b.as_str(), path)
}

} // verus!
