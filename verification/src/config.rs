//! Build-time keys and runtime toggles.
//!
//! The values themselves come from outside: integration keys from the build,
//! toggles and overrides from the environment. An absent value disables a
//! feature; nothing here fails.

use vstd::prelude::*;
use crate::text;

verus! {

/// Integration keys. `None` means the feature is simply off.
#[derive(Debug, PartialEq, Eq)]
pub struct Keys {
    pub lastfm_api_key: Option<String>,
    pub lastfm_shared_secret: Option<String>,
    pub discord_client_id: Option<String>,
}

/// Whether a key is there and says something.
pub open spec fn is_present(v: Option<String>) -> bool {
    v is Some && !text::blank(v->0@)
}

impl Keys {
    /// A build without any keys.
    pub fn none() -> (r: Keys)
        ensures
            r.lastfm_api_key is None,
            r.lastfm_shared_secret is None,
            r.discord_client_id is None,
    {
        Keys { lastfm_api_key: None, lastfm_shared_secret: None, discord_client_id: None }
    }

    fn present(v: &Option<String>) -> (r: bool)
        ensures
            r == is_present(*v),
    {
        match v {
            Some(s) => !text::is_blank(s.as_str()),
            None => false,
        }
    }

    /// Scrobbling needs both halves of a registration.
    pub fn lastfm_enabled(&self) -> (r: bool)
        ensures
            r == (is_present(self.lastfm_api_key) && is_present(self.lastfm_shared_secret)),
            r <==> self.lastfm_api_key is Some && !text::blank(self.lastfm_api_key->0@)
                && self.lastfm_shared_secret is Some && !text::blank(self.lastfm_shared_secret->0@),
    {
        Self::present(&self.lastfm_api_key) && Self::present(&self.lastfm_shared_secret)
    }

    /// Presence needs a client id.
    pub fn discord_enabled(&self) -> (r: bool)
        ensures
            r == is_present(self.discord_client_id),
            r <==> self.discord_client_id is Some && !text::blank(self.discord_client_id->0@),
    {
        Self::present(&self.discord_client_id)
    }
}

/// Whether a word switches a flag on. Only `false`, `0`, `no` and nothing at all
/// do not.
pub open spec fn is_on(word: Seq<char>) -> bool {
    let w = text::lowered(text::trimmed(word));
    !(w == "false"@ || w == "0"@ || w == "no"@ || w.len() == 0)
}

/// A flag from the environment: its value if it is set, else the default.
pub fn env_flag(value: Option<&str>, default: bool) -> (r: bool)
    ensures
        r == (match value {
            Some(v) => is_on(v@),
            None => default,
        }),
        value is None ==> r == default,
        value is Some ==> ({
            let w = text::lowered(text::trimmed(value->0@));
            r <==> w != "false"@ && w != "0"@ && w != "no"@ && w.len() > 0
        }),
{
    match value {
        Some(v) => {
            let trimmed = text::trim(v);
            let w = text::to_lower(trimmed.as_str());
            let empty = text::same(w.as_str(), "");
            proof {
                reveal_strlit("");
                if w@.len() == 0 {
                    assert(w@ =~= ""@);
                }
            }
            !(text::same(w.as_str(), "false") || text::same(w.as_str(), "0") || text::same(
                w.as_str(),
                "no",
            ) || empty)
        },
        None => default,
    }
}

/// Toggles that can be flipped without a rebuild.
#[derive(Debug, Clone, Copy, PartialEq, Eq, Structural)]
pub struct Runtime {
    pub show_engine_window: bool,
}

impl Runtime {
    /// Reads the toggles: `show_engine_window` is the value of its variable.
    pub fn from_env(show_engine_window: Option<&str>) -> (r: Self)
        ensures
            r.show_engine_window == (show_engine_window matches Some(v) && is_on(v@)),
    {
        Runtime { show_engine_window: env_flag(show_engine_window, false) }
    }
}

/// A Navidrome connection taken from the environment.
#[derive(Debug, PartialEq, Eq)]
pub struct NavidromeEnv {
    pub url: String,
    pub username: String,
    pub password: String,
}

/// A variable that is set to something.
pub open spec fn is_set(v: Option<String>) -> bool {
    v is Some && text::trimmed(v->0@).len() > 0
}

/// The value of a variable without the white space around it; a blank one counts
/// as unset.
fn set_value(v: Option<String>) -> (r: Option<String>)
    ensures
        match r {
            Some(s) => is_set(v) && s@ == text::trimmed(v->0@),
            None => !is_set(v),
        },
{
    match v {
        Some(s) => {
            let t = text::trim(s.as_str());
            if text::same(t.as_str(), "") {
                proof {
                    reveal_strlit("");
                }
                return None;
            }
            proof {
                reveal_strlit("");
                if t@.len() == 0 {
                    assert(t@ =~= ""@);
                }
            }
            Some(t)
        },
        None => None,
    }
}

/// All three values, or nothing: a partial set is ignored rather than merged
/// with stored settings.
pub fn navidrome_env(url: Option<String>, username: Option<String>, password: Option<String>) -> (r:
    Option<NavidromeEnv>)
    ensures
        match r {
            Some(e) => {
                &&& is_set(url) && e.url@ == text::trimmed(url->0@)
                &&& is_set(username) && e.username@ == text::trimmed(username->0@)
                &&& is_set(password) && e.password@ == text::trimmed(password->0@)
            },
            None => !(is_set(url) && is_set(username) && is_set(password)),
        },
        r is Some <==> url is Some && text::trimmed(url->0@).len() > 0 && username is Some
            && text::trimmed(username->0@).len() > 0 && password is Some && text::trimmed(
            password->0@,
        ).len() > 0,
{
    match (set_value(url), set_value(username), set_value(password)) {
        (Some(url), Some(username), Some(password)) => Some(
            NavidromeEnv { url, username, password },
        ),
        _ => None,
    }
}

/// One name, unless its value is set.
pub open spec fn unless_set(v: Option<String>, name: Seq<char>) -> Seq<Seq<char>> {
    if is_set(v) {
        Seq::empty()
    } else {
        seq![name]
    }
}

/// The names of the values that are missing, for a warning. One that is blank is
/// missing too.
pub fn navidrome_missing(
    url: &Option<String>,
    username: &Option<String>,
    password: &Option<String>,
) -> (r: Vec<&'static str>)
    ensures
        r@.map_values(|s: &'static str| s@) == unless_set(*url, "NAVIDROME_URL"@) + unless_set(
            *username,
            "NAVIDROME_USER"@,
        ) + unless_set(*password, "NAVIDROME_PASSWORD"@),
{
    let mut r: Vec<&'static str> = Vec::new();
    if !has_value(url) {
        r.push("NAVIDROME_URL");
    }
    if !has_value(username) {
        r.push("NAVIDROME_USER");
    }
    if !has_value(password) {
        r.push("NAVIDROME_PASSWORD");
    }
    assert(r@.map_values(|s: &'static str| s@) =~= unless_set(*url, "NAVIDROME_URL"@) + unless_set(
        *username,
        "NAVIDROME_USER"@,
    ) + unless_set(*password, "NAVIDROME_PASSWORD"@));
    r
}

fn has_value(v: &Option<String>) -> (r: bool)
    ensures
        r == is_set(*v),
{
    match v {
        Some(s) => {
            proof {
                text::lemma_trimmed_blank(s@);
            }
            !text::is_blank(s.as_str())
        },
        None => false,
    }
}

/// One line on what is switched on.
pub fn describe(keys: &Keys, runtime: Runtime) -> (r: String)
    ensures
        r@ == "lastfm="@ + text::truth(
            is_present(keys.lastfm_api_key) && is_present(keys.lastfm_shared_secret),
        ) + " discord="@ + text::truth(is_present(keys.discord_client_id))
            + " show_engine_window="@ + text::truth(runtime.show_engine_window),
{
    let mut out = "lastfm=".to_string();
    out.append(text::show_bool(keys.lastfm_enabled()));
    out.append(" discord=");
    out.append(text::show_bool(keys.discord_enabled()));
    out.append(" show_engine_window=");
    out.append(text::show_bool(runtime.show_engine_window));
    out
}

/// A name is told of exactly where its value is missing or blank.
pub proof fn lemma_what_is_missing(v: Option<String>, name: Seq<char>)
    ensures
        is_set(v) <==> v is Some && text::trimmed(v->0@).len() > 0,
        v is None || text::trimmed(v->0@).len() == 0 ==> unless_set(v, name) == seq![name],
        v is Some && text::trimmed(v->0@).len() > 0 ==> unless_set(v, name).len() == 0,
{
}

} // verus!
