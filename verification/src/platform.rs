//! Where Codex Halo reads and writes: each location is a platform base
//! directory followed by fixed path components.
use vstd::prelude::*;

use std::path::PathBuf;

verus! {

/// The standard library's owned path type, carried through unchanged.
#[verifier::external_type_specification]
#[verifier::external_body]
pub struct ExPathBuf(std::path::PathBuf);

/// A location: a platform base directory followed by fixed components, in order.
pub struct HaloPath {
    pub root: PathBuf,
    pub components: Vec<&'static str>,
}

/// The texts of a location's components.
pub open spec fn component_texts(path: &HaloPath) -> Seq<Seq<char>> {
    path.components@.map_values(|c: &'static str| c@)
}

impl HaloPath {
    /// The location `name` inside this one.
    pub fn child(self, name: &'static str) -> (child: HaloPath)
        ensures
            child.root == self.root,
            component_texts(&child) == component_texts(&self).push(name@),
    {
        let HaloPath { root, mut components } = self;
        let ghost before = components@;
        components.push(name);
        proof {
            assert(components@.map_values(|c: &'static str| c@) =~= before.map_values(
                |c: &'static str| c@,
            ).push(name@));
        }
        HaloPath { root, components }
    }
}

/// The current user's home directory.
///
/// Calls `dirs::home_dir`, which reads `$HOME` (or the password database, or
/// the Windows profile folder); the answer depends on the environment, so
/// nothing is promised of it.
#[verifier::external_body]
fn home_dir() -> Option<PathBuf> {
    dirs::home_dir()
}

/// The platform's local application-data directory.
///
/// Calls `dirs::data_local_dir`, which reads `$XDG_DATA_HOME` or falls back to
/// `$HOME/.local/share` (Application Support on macOS, LocalAppData on
/// Windows); the answer depends on the environment, so nothing is promised of it.
#[verifier::external_body]
pub(crate) fn data_local_dir() -> Option<PathBuf> {
    dirs::data_local_dir()
}

/// A location of one component under `root`.
fn located1(root: PathBuf, first: &'static str) -> (path: HaloPath)
    ensures
        path.root == root,
        component_texts(&path) == seq![first@],
{
    let mut components: Vec<&'static str> = Vec::new();
    components.push(first);
    let path = HaloPath { root, components };
    assert(component_texts(&path) =~= seq![first@]);
    path
}

/// The location of one component under a base directory that may be
/// unavailable: present exactly when the base directory is.
pub fn locate(root: Option<PathBuf>, first: &'static str) -> (path: Option<HaloPath>)
    ensures
        path is Some <==> root is Some,
        path matches Some(p) ==> p.root == root.unwrap() && component_texts(&p) == seq![first@],
{
    match root {
        Some(base) => Some(located1(base, first)),
        None => None,
    }
}

/// The directory holding the state bridge: `.codex-halo` in the home directory.
pub fn state_dir() -> (dir: Option<HaloPath>)
    ensures
        dir matches Some(p) ==> component_texts(&p) == seq![".codex-halo"@],
{
    locate(home_dir(), ".codex-halo")
}

/// The location `second` inside `first` under a base directory that may be
/// unavailable: present exactly when the base directory is.
fn locate_nested(root: Option<PathBuf>, first: &'static str, second: &'static str) -> (path: Option<HaloPath>)
    ensures
        path is Some <==> root is Some,
        path matches Some(p) ==> p.root == root.unwrap() && component_texts(&p) == seq![first@, second@],
{
    match locate(root, first) {
        Some(outer) => {
            let inner = outer.child(second);
            assert(component_texts(&inner) =~= seq![first@, second@]);
            Some(inner)
        },
        None => None,
    }
}

/// The state bridge file under a home directory: `.codex-halo/state.json`,
/// present exactly when the home directory is.
pub fn state_file_in(home: Option<PathBuf>) -> (file: Option<HaloPath>)
    ensures
        file is Some <==> home is Some,
        file matches Some(p) ==> p.root == home.unwrap() && component_texts(&p) == seq![
            ".codex-halo"@,
            "state.json"@,
        ],
{
    locate_nested(home, ".codex-halo", "state.json")
}

/// The state bridge file: `state.json` in the state directory.
pub fn state_file_path() -> (file: Option<HaloPath>)
    ensures
        file matches Some(p) ==> component_texts(&p) == seq![".codex-halo"@, "state.json"@],
{
    state_file_in(home_dir())
}

/// The Codex session directory under a home directory: `.codex/sessions`,
/// present exactly when the home directory is.
pub fn sessions_dir_in(home: Option<PathBuf>) -> (dir: Option<HaloPath>)
    ensures
        dir is Some <==> home is Some,
        dir matches Some(p) ==> p.root == home.unwrap() && component_texts(&p) == seq![
            ".codex"@,
            "sessions"@,
        ],
{
    locate_nested(home, ".codex", "sessions")
}

/// Where Codex Desktop appends its session records: `.codex/sessions` in the home directory.
pub fn codex_sessions_dir() -> (dir: Option<HaloPath>)
    ensures
        dir matches Some(p) ==> component_texts(&p) == seq![".codex"@, "sessions"@],
{
    sessions_dir_in(home_dir())
}

/// A file or directory `name` inside `Codex Halo` under a local data
/// directory, present exactly when the data directory is.
pub fn app_data_entry_in(data: Option<PathBuf>, name: &'static str) -> (path: Option<HaloPath>)
    ensures
        path is Some <==> data is Some,
        path matches Some(p) ==> p.root == data.unwrap() && component_texts(&p) == seq![
            "Codex Halo"@,
            name@,
        ],
{
    locate_nested(data, "Codex Halo", name)
}

/// The application's own data directory: `Codex Halo` in the local data directory.
pub fn app_data_dir() -> (dir: Option<HaloPath>)
    ensures
        dir matches Some(p) ==> component_texts(&p) == seq!["Codex Halo"@],
{
    locate(data_local_dir(), "Codex Halo")
}

/// The bounded log directory under a local data directory: `Codex Halo/logs`,
/// present exactly when the data directory is.
pub fn log_dir_in(data: Option<PathBuf>) -> (dir: Option<HaloPath>)
    ensures
        dir is Some <==> data is Some,
        dir matches Some(p) ==> p.root == data.unwrap() && component_texts(&p) == seq![
            "Codex Halo"@,
            "logs"@,
        ],
{
    app_data_entry_in(data, "logs")
}

/// The bounded log directory: `logs` in the application data directory.
pub fn log_dir() -> (dir: Option<HaloPath>)
    ensures
        dir matches Some(p) ==> component_texts(&p) == seq!["Codex Halo"@, "logs"@],
{
    log_dir_in(data_local_dir())
}

/// The log is rotated at startup once it reaches this many bytes (1 MiB).
pub const MAX_LOG_BYTES: u64 = 1_048_576;

/// Whether the log must be rotated before appending: its size (zero when it
/// cannot be read) has reached the limit.
pub fn needs_log_rotation(current_len: Option<u64>) -> (rotate: bool)
    ensures
        rotate == match current_len {
            Some(len) => len >= MAX_LOG_BYTES,
            None => false,
        },
{
    match current_len {
        Some(len) => len >= MAX_LOG_BYTES,
        None => false,
    }
}

} // verus!
