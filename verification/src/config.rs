//! The assistant's settings and where they, and its history, live.

use vstd::prelude::*;
use crate::paths::{home_or_current, home_or_dot, join, join_path, opt_view};

verus! {

/// The assistant's settings.
#[derive(Clone, Debug)]
pub struct Config {
    /// Address of the completion server.
    pub server_url: String,
    /// Key for a hosted model, when one is configured.
    pub anthropic_api_key: Option<String>,
    /// When to use a hosted model: "never", "fallback", "auto" or "always".
    pub api_mode: String,
    /// Directory of the conversation history.
    pub history_dir: String,
}

/// The server address used when the settings name none.
pub fn default_server_url() -> (s: String)
    ensures
        s@ == "http://localhost:8080"@,
{
    String::from_str("http://localhost:8080")
}

/// The hosted-model mode used when the settings name none.
pub fn default_api_mode() -> (s: String)
    ensures
        s@ == "never"@,
{
    String::from_str("never")
}

/// `<home>/.opie/<leaf>`, with `.` standing for a missing home directory.
pub open spec fn under_opie(home: Option<Seq<char>>, leaf: Seq<char>) -> Seq<char> {
    join_path(join_path(home_or_current(home), ".opie"@), leaf)
}

/// `dirs::home_dir`: the user's home directory, as text (parts that are
/// not valid Unicode are replaced by U+FFFD), or nothing when the system
/// gives none. It depends on the environment, so nothing is stated of
/// the result.
#[verifier::external_body]
fn home_dir() -> Option<String> {
    dirs::home_dir().map(|p| p.to_string_lossy().into_owned())
}

/// The history directory for the home directory `home`:
/// `<home>/.opie/history`.
pub fn history_dir_in(home: Option<&str>) -> (s: String)
    ensures
        s@ == under_opie(opt_view(home), "history"@),
{
    let base = home_or_dot(home);
    let opie = join(base.as_str(), ".opie");
    join(opie.as_str(), "history")
}

/// The history directory used when the settings name none:
/// `<home>/.opie/history` for the user's home directory, whichever the
/// environment gives.
pub fn default_history_dir() -> (s: String)
    ensures
        exists|home: Option<Seq<char>>| s@ == under_opie(home, "history"@),
{
    let home = home_dir();
    let s = match &home {
        Some(h) => history_dir_in(Some(h.as_str())),
        None => history_dir_in(None),
    };
    let ghost hv: Option<Seq<char>> = match home {
        Some(h) => Some(h@),
        None => None,
    };
    assert(s@ == under_opie(hv, "history"@));
    s
}

impl Config {
    /// Where the settings file lives for the home directory `home`:
    /// `<home>/.opie/config.toml`.
    pub fn config_path_in(home: Option<&str>) -> (s: String)
        ensures
            s@ == under_opie(opt_view(home), "config.toml"@),
    {
        let base = home_or_dot(home);
        let opie = join(base.as_str(), ".opie");
        join(opie.as_str(), "config.toml")
    }

    /// Where the settings file lives: `<home>/.opie/config.toml` for the
    /// user's home directory, whichever the environment gives.
    pub fn config_path() -> (s: String)
        ensures
            exists|home: Option<Seq<char>>| s@ == under_opie(home, "config.toml"@),
    {
        let home = home_dir();
        let s = match &home {
            Some(h) => Self::config_path_in(Some(h.as_str())),
            None => Self::config_path_in(None),
        };
        let ghost hv: Option<Seq<char>> = match home {
            Some(h) => Some(h@),
            None => None,
        };
        assert(s@ == under_opie(hv, "config.toml"@));
        s
    }

    /// The settings used when there is no settings file.
    pub fn default_config() -> (c: Config)
        ensures
            c.server_url@ == "http://localhost:8080"@,
            c.anthropic_api_key is None,
            c.api_mode@ == "never"@,
            exists|home: Option<Seq<char>>| c.history_dir@ == under_opie(home, "history"@),
    {
        Config {
            server_url: default_server_url(),
            anthropic_api_key: None,
            api_mode: default_api_mode(),
            history_dir: default_history_dir(),
        }
    }
}

} // verus!
