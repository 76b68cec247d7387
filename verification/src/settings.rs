//! User settings: which source is played from, where the music is, how the
//! window looks.
//!
//! Secrets do not live here. Passwords, session keys and tokens go to the
//! credential store; the settings file sits in plain text next to the library.

use vstd::prelude::*;
use crate::config::Keys;
use crate::outside;
use crate::text;

verus! {

/// The name of the settings file.
pub const FILE: &'static str = "config.toml";

/// Where the library comes from.
#[derive(Debug, Clone, Copy, PartialEq, Eq, Structural)]
pub enum Source {
    Apple,
    Spotify,
    Navidrome,
    Local,
}

impl Default for Source {
    fn default() -> (r: Self)
        ensures
            r == Source::Apple,
    {
        Source::Apple
    }
}

#[derive(Debug, PartialEq, Eq)]
pub struct Navidrome {
    pub url: String,
    pub username: String,
}

impl Default for Navidrome {
    fn default() -> (r: Self)
        ensures
            r.url@.len() == 0,
            r.username@.len() == 0,
    {
        Navidrome { url: String::new(), username: String::new() }
    }
}

impl Clone for Navidrome {
    fn clone(&self) -> (r: Self)
        ensures
            r == *self,
    {
        Navidrome { url: self.url.clone(), username: self.username.clone() }
    }
}

#[derive(Debug, PartialEq, Eq)]
pub struct Local {
    pub folders: Vec<String>,
}

impl Default for Local {
    fn default() -> (r: Self)
        ensures
            r.folders@.len() == 0,
    {
        Local { folders: Vec::new() }
    }
}

impl Clone for Local {
    fn clone(&self) -> (r: Self)
        ensures
            r.folders@ == self.folders@,
    {
        Local { folders: text::copy_all(&self.folders) }
    }
}

#[derive(Debug, Clone, Copy, PartialEq, Eq, Structural)]
pub struct LyricsSettings {
    pub offset_ms: i64,
}

impl Default for LyricsSettings {
    fn default() -> (r: Self)
        ensures
            r.offset_ms == 0,
    {
        LyricsSettings { offset_ms: 0 }
    }
}

#[derive(Debug, PartialEq, Eq)]
pub struct Lastfm {
    pub api_key: String,
    pub shared_secret: String,
}

impl Default for Lastfm {
    fn default() -> (r: Self)
        ensures
            r.api_key@.len() == 0,
            r.shared_secret@.len() == 0,
    {
        Lastfm { api_key: String::new(), shared_secret: String::new() }
    }
}

impl Clone for Lastfm {
    fn clone(&self) -> (r: Self)
        ensures
            r == *self,
    {
        Lastfm { api_key: self.api_key.clone(), shared_secret: self.shared_secret.clone() }
    }
}

#[derive(Debug, PartialEq, Eq)]
pub struct Discord {
    pub client_id: String,
}

impl Default for Discord {
    fn default() -> (r: Self)
        ensures
            r.client_id@.len() == 0,
    {
        Discord { client_id: String::new() }
    }
}

impl Clone for Discord {
    fn clone(&self) -> (r: Self)
        ensures
            r == *self,
    {
        Discord { client_id: self.client_id.clone() }
    }
}

/// Window material. A string rather than an enum, so that a value nobody knows
/// degrades to "no glass" instead of invalidating the whole file.
#[derive(Debug, PartialEq, Eq)]
pub struct Appearance {
    pub glass: String,
}

impl Default for Appearance {
    fn default() -> (r: Self)
        ensures
            r.glass@ == "none"@,
    {
        Appearance { glass: "none".to_string() }
    }
}

impl Clone for Appearance {
    fn clone(&self) -> (r: Self)
        ensures
            r == *self,
    {
        Appearance { glass: self.glass.clone() }
    }
}

#[derive(Debug, PartialEq, Eq)]
pub struct Settings {
    pub source: Source,
    pub onboarded: bool,
    pub appearance: Appearance,
    pub navidrome: Navidrome,
    pub local: Local,
    pub lyrics: LyricsSettings,
    pub lastfm: Lastfm,
    pub discord: Discord,
}

impl Default for Settings {
    fn default() -> (r: Self)
        ensures
            r.source == Source::Apple,
            !r.onboarded,
            r.appearance.glass@ == "none"@,
            r.navidrome.url@.len() == 0,
            r.navidrome.username@.len() == 0,
            r.local.folders@.len() == 0,
            r.lyrics.offset_ms == 0,
            r.lastfm.api_key@.len() == 0,
            r.lastfm.shared_secret@.len() == 0,
            r.discord.client_id@.len() == 0,
    {
        Settings {
            source: Source::default(),
            onboarded: false,
            appearance: Appearance::default(),
            navidrome: Navidrome::default(),
            local: Local::default(),
            lyrics: LyricsSettings::default(),
            lastfm: Lastfm::default(),
            discord: Discord::default(),
        }
    }
}

impl Settings {
    /// The same settings, the music folders compared by what the list holds.
    pub open spec fn same_as(self, other: Settings) -> bool {
        &&& self.source == other.source
        &&& self.onboarded == other.onboarded
        &&& self.appearance == other.appearance
        &&& self.navidrome == other.navidrome
        &&& self.local.folders@ == other.local.folders@
        &&& self.lyrics == other.lyrics
        &&& self.lastfm == other.lastfm
        &&& self.discord == other.discord
    }
}

impl Clone for Settings {
    fn clone(&self) -> (r: Self)
        ensures
            r.same_as(*self),
    {
        Settings {
            source: self.source,
            onboarded: self.onboarded,
            appearance: self.appearance.clone(),
            navidrome: self.navidrome.clone(),
            local: self.local.clone(),
            lyrics: self.lyrics,
            lastfm: self.lastfm.clone(),
            discord: self.discord.clone(),
        }
    }
}

/// What the file says, unless that is blank; then what was built in, if anything.
pub open spec fn picked(from_file: Seq<char>, baked_in: Option<String>) -> Seq<char> {
    if !text::blank(from_file) {
        from_file
    } else if baked_in is Some {
        baked_in->0@
    } else {
        ""@
    }
}

fn pick<'a>(from_file: &'a str, baked_in: &'a Option<String>) -> (r: &'a str)
    ensures
        r@ == picked(from_file@, *baked_in),
{
    if !text::is_blank(from_file) {
        return from_file;
    }
    match baked_in {
        Some(s) => s.as_str(),
        None => "",
    }
}

impl Settings {
    /// Whether scrobbling is set up: both halves of a registration are there.
    pub fn lastfm_enabled(&self, keys: &Keys) -> (r: bool)
        ensures
            r == (!text::blank(picked(self.lastfm.api_key@, keys.lastfm_api_key)) && !text::blank(
                picked(self.lastfm.shared_secret@, keys.lastfm_shared_secret),
            )),
    {
        !text::is_blank(self.api_key(keys)) && !text::is_blank(self.shared_secret(keys))
    }

    /// Whether presence is set up.
    pub fn discord_enabled(&self, keys: &Keys) -> (r: bool)
        ensures
            r == !text::blank(picked(self.discord.client_id@, keys.discord_client_id)),
    {
        !text::is_blank(self.discord_client_id(keys))
    }

    /// The API key in use.
    pub fn api_key<'a>(&'a self, keys: &'a Keys) -> (r: &'a str)
        ensures
            r@ == picked(self.lastfm.api_key@, keys.lastfm_api_key),
    {
        pick(self.lastfm.api_key.as_str(), &keys.lastfm_api_key)
    }

    /// The shared secret in use.
    pub fn shared_secret<'a>(&'a self, keys: &'a Keys) -> (r: &'a str)
        ensures
            r@ == picked(self.lastfm.shared_secret@, keys.lastfm_shared_secret),
    {
        pick(self.lastfm.shared_secret.as_str(), &keys.lastfm_shared_secret)
    }

    /// The client id in use.
    pub fn discord_client_id<'a>(&'a self, keys: &'a Keys) -> (r: &'a str)
        ensures
            r@ == picked(self.discord.client_id@, keys.discord_client_id),
    {
        pick(self.discord.client_id.as_str(), &keys.discord_client_id)
    }
}

/// Where the settings file is.
pub fn path(dir: &str) -> (r: String)
    ensures
        outside::is_adjoined(dir@, FILE@, r@),
        outside::is_adjoined(dir@, "config.toml"@, r@),
{
    proof {
        reveal_strlit("config.toml");
    }
    outside::path_join(dir, FILE)
}

/// What a read of the settings file comes to: what it holds if it could be read
/// and understood, and the defaults otherwise.
pub fn loaded(parsed: Option<Settings>) -> (r: Settings)
    ensures
        parsed matches Some(s) ==> r == s,
        parsed is None ==> r.source == Source::Apple && !r.onboarded && r.appearance.glass@
            == "none"@ && r.navidrome.url@.len() == 0 && r.navidrome.username@.len() == 0
            && r.local.folders@.len() == 0 && r.lyrics.offset_ms == 0 && r.lastfm.api_key@.len()
            == 0 && r.lastfm.shared_secret@.len() == 0 && r.discord.client_id@.len() == 0,
{
    match parsed {
        Some(s) => s,
        None => Settings::default(),
    }
}

/// A setting of the file wins unless it is blank; then what was built in counts, and
/// without that there is none.
pub proof fn lemma_picked(from_file: Seq<char>, baked_in: String)
    ensures
        !text::blank(from_file) ==> picked(from_file, Some(baked_in)) == from_file
            && picked(from_file, None) == from_file,
        text::blank(from_file) ==> picked(from_file, Some(baked_in)) == baked_in@,
        text::blank(from_file) ==> picked(from_file, None).len() == 0,
{
    reveal_strlit("");
}

/// Settings that are the same agree in everything they hold.
pub proof fn lemma_same_settings(a: Settings, b: Settings)
    requires
        a.same_as(b),
    ensures
        a.source == b.source,
        a.onboarded == b.onboarded,
        a.appearance.glass == b.appearance.glass,
        a.navidrome.url == b.navidrome.url,
        a.navidrome.username == b.navidrome.username,
        a.local.folders@ == b.local.folders@,
        a.lyrics.offset_ms == b.lyrics.offset_ms,
        a.lastfm.api_key == b.lastfm.api_key,
        a.lastfm.shared_secret == b.lastfm.shared_secret,
        a.discord.client_id == b.discord.client_id,
{
}

} // verus!
