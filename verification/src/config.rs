use vstd::prelude::*;
use vstd::string::{StrSliceExecFns, StringExecFns};

verus! {

/// The credential record persisted between runs. Reading and writing it
/// is the shell's business; the record itself is plain data.
#[derive(Debug)]
pub struct StoredSession {
    pub homeserver: String,
    pub user_id: String,
    pub access_token: String,
    pub device_id: String,
}

/// How the room list is ordered within each section.
#[derive(Clone, Copy, PartialEq, Eq, Structural, Debug)]
pub enum SortMode {
    RecentActivity,
    Alphabetical,
}

impl Default for SortMode {
    fn default() -> (r: SortMode)
        ensures
            r == SortMode::RecentActivity,
    {
        SortMode::RecentActivity
    }
}

/// The small settings record persisted between runs: the sort mode and
/// which room-list sections are collapsed. A key that is absent counts
/// as not collapsed.
#[derive(Debug)]
pub struct AppSettings {
    pub sort_mode: SortMode,
    /// Section key paired with its collapsed state; keys appear at most
    /// once.
    pub sections_collapsed: Vec<(String, bool)>,
}

impl Default for AppSettings {
    fn default() -> (r: AppSettings)
        ensures
            r.sort_mode == SortMode::RecentActivity,
            r.sections_collapsed@.len() == 0,
    {
        AppSettings { sort_mode: SortMode::RecentActivity, sections_collapsed: Vec::new() }
    }
}

/// Relies on dirs::config_dir: the platform's per-user configuration
/// directory, rendered as text. The answer depends on the machine and
/// its environment, so nothing is promised of it.
#[verifier::external_body]
fn os_config_dir() -> Option<String> {
    dirs::config_dir().map(|p| p.to_string_lossy().into_owned())
}

/// Relies on dirs::data_dir: the platform's per-user data directory,
/// rendered as text. The answer depends on the machine and its
/// environment, so nothing is promised of it.
#[verifier::external_body]
fn os_data_dir() -> Option<String> {
    dirs::data_dir().map(|p| p.to_string_lossy().into_owned())
}

/// `s` ends with `suffix`.
pub open spec fn spec_ends_with(s: Seq<char>, suffix: Seq<char>) -> bool {
    s.len() >= suffix.len() && s.subrange(s.len() - suffix.len(), s.len() as int) == suffix
}

proof fn lemma_concat_ends_with(a: Seq<char>, b: Seq<char>)
    ensures
        spec_ends_with(a + b, b),
{
    assert((a + b).subrange(a.len() as int, (a + b).len() as int) =~= b);
}

/// This application's directory name under the per-user base
/// directories.
pub open spec fn spec_app_dir_name() -> Seq<char> {
    "cosmic-matrix"@
}

/// The application's configuration directory: the per-user base, or the
/// working directory when the platform names none, with the
/// application's directory appended.
pub fn config_dir() -> (r: String)
    ensures
        spec_ends_with(r@, "/cosmic-matrix"@),
{
    let base = match os_config_dir() {
        Some(b) => b,
        None => ".".to_owned(),
    };
    let r = base.concat("/cosmic-matrix");
    proof {
        lemma_concat_ends_with(base@, "/cosmic-matrix"@);
    }
    r
}

/// The application's data directory, alongside the configuration
/// directory.
pub fn data_dir() -> (r: String)
    ensures
        spec_ends_with(r@, "/cosmic-matrix"@),
{
    let base = match os_data_dir() {
        Some(b) => b,
        None => ".".to_owned(),
    };
    let r = base.concat("/cosmic-matrix");
    proof {
        lemma_concat_ends_with(base@, "/cosmic-matrix"@);
    }
    r
}

/// Where the session record lives: the file `session.json` in the
/// configuration directory.
pub fn session_path() -> (r: String)
    ensures
        spec_ends_with(r@, "/cosmic-matrix/session.json"@),
{
    let dir = config_dir();
    let r = dir.concat("/session.json");
    proof {
        reveal_strlit("/cosmic-matrix");
        reveal_strlit("/session.json");
        reveal_strlit("/cosmic-matrix/session.json");
        assert(("/cosmic-matrix"@ + "/session.json"@) =~= "/cosmic-matrix/session.json"@);
        let whole = dir@ + "/session.json"@;
        assert(whole.subrange(
            whole.len() - "/cosmic-matrix/session.json"@.len(),
            whole.len() as int,
        ) =~= "/cosmic-matrix/session.json"@);
    }
    r
}

/// Where the settings record lives: the file `settings.json` in the
/// configuration directory.
pub fn settings_path() -> (r: String)
    ensures
        spec_ends_with(r@, "/cosmic-matrix/settings.json"@),
{
    let dir = config_dir();
    let r = dir.concat("/settings.json");
    proof {
        reveal_strlit("/cosmic-matrix");
        reveal_strlit("/settings.json");
        reveal_strlit("/cosmic-matrix/settings.json");
        assert(("/cosmic-matrix"@ + "/settings.json"@) =~= "/cosmic-matrix/settings.json"@);
        let whole = dir@ + "/settings.json"@;
        assert(whole.subrange(
            whole.len() - "/cosmic-matrix/settings.json"@.len(),
            whole.len() as int,
        ) =~= "/cosmic-matrix/settings.json"@);
    }
    r
}

/// The collapsed state recorded for a section key; an absent key counts
/// as not collapsed.
pub open spec fn spec_collapsed(entries: Seq<(Seq<char>, bool)>, key: Seq<char>) -> bool
    decreases entries.len(),
{
    if entries.len() == 0 {
        false
    } else if entries[0].0 == key {
        entries[0].1
    } else {
        spec_collapsed(entries.drop_first(), key)
    }
}

} // verus!
