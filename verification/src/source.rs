//! Which backend the library comes from.
//!
//! An enum, not a trait object: the sources are closed and known in advance.

use vstd::prelude::*;
use crate::api;
use crate::auth::{NavidromeCredentials, Tokens};
use crate::config::NavidromeEnv;
use crate::settings::{Navidrome, Settings, Source};
use crate::subsonic;
use crate::text;

verus! {

/// A client of the active source.
pub enum SourceClient {
    Apple(api::Client),
    Navidrome(subsonic::Client),
}

/// Why no client could be made.
#[derive(Debug, PartialEq, Eq)]
pub enum ConnectError {
    NotSignedIn,
    NotConfigured,
    Unsupported(&'static str),
    Apple(api::ApiError),
    Navidrome(subsonic::SubsonicError),
}

impl ConnectError {
    /// Signing in would help.
    pub fn needs_auth(&self) -> (r: bool)
        ensures
            r == (*self is NotSignedIn),
    {
        match self {
            ConnectError::NotSignedIn => true,
            _ => false,
        }
    }

    /// The message shown for this error.
    pub open spec fn text(self) -> Seq<char> {
        match self {
            ConnectError::NotSignedIn => "not signed in"@,
            ConnectError::NotConfigured => "no navidrome server configured"@,
            ConnectError::Unsupported(s) => "source not implemented yet: "@ + s@,
            ConnectError::Apple(e) => "apple client: "@ + e.text(),
            ConnectError::Navidrome(e) => "navidrome client: "@ + e.text(),
        }
    }

    /// The message shown for this error.
    pub fn message(&self) -> (r: String)
        ensures
            r@ == self.text(),
            r@ == (match *self {
                ConnectError::NotSignedIn => "not signed in"@,
                ConnectError::NotConfigured => "no navidrome server configured"@,
                ConnectError::Unsupported(s) => "source not implemented yet: "@ + s@,
                ConnectError::Apple(e) => "apple client: "@ + e.text(),
                ConnectError::Navidrome(e) => "navidrome client: "@ + e.text(),
            }),
    {
        match self {
            ConnectError::NotSignedIn => "not signed in".to_string(),
            ConnectError::NotConfigured => "no navidrome server configured".to_string(),
            ConnectError::Unsupported(s) => text::concat("source not implemented yet: ", s),
            ConnectError::Apple(e) => {
                let m = e.message();
                text::concat("apple client: ", m.as_str())
            },
            ConnectError::Navidrome(e) => {
                let m = e.message();
                text::concat("navidrome client: ", m.as_str())
            },
        }
    }
}

/// Why a source stopped answering.
#[derive(Debug, PartialEq, Eq)]
pub enum SourceError {
    Apple(api::ApiError),
    Navidrome(subsonic::SubsonicError),
}

impl SourceError {
    /// The credentials were rejected.
    pub open spec fn is_unauthorized(self) -> bool {
        self == SourceError::Apple(api::ApiError::Unauthorized) || self == SourceError::Navidrome(
            subsonic::SubsonicError::Unauthorized,
        )
    }

    /// Signing in again would help.
    pub fn needs_auth(&self) -> (r: bool)
        ensures
            r == self.is_unauthorized(),
            r == match *self {
                SourceError::Apple(e) => e is Unauthorized,
                SourceError::Navidrome(e) => e is Unauthorized,
                _ => false,
            },
    {
        match self {
            SourceError::Apple(api::ApiError::Unauthorized) => true,
            SourceError::Navidrome(subsonic::SubsonicError::Unauthorized) => true,
            _ => false,
        }
    }

    /// The message shown for this error.
    pub open spec fn text(self) -> Seq<char> {
        match self {
            SourceError::Apple(e) => e.text(),
            SourceError::Navidrome(e) => e.text(),
        }
    }

    /// The message shown for this error.
    pub fn message(&self) -> (r: String)
        ensures
            r@ == self.text(),
            r@ == (match *self {
                SourceError::Apple(e) => e.text(),
                SourceError::Navidrome(e) => e.text(),
            }),
    {
        match self {
            SourceError::Apple(e) => e.message(),
            SourceError::Navidrome(e) => e.message(),
        }
    }
}

/// Settings with any environment override applied, plus the Navidrome password.
///
/// The environment wins when fully specified, otherwise the credential store.
/// Sync and startup both go through here, so they cannot disagree about which
/// server is being talked to.
pub fn resolve(
    settings: &Settings,
    env: Option<NavidromeEnv>,
    stored: Option<NavidromeCredentials>,
) -> (r: (Settings, Option<String>))
    ensures
        if settings.source != Source::Navidrome {
            r.0.same_as(*settings) && r.1 is None
        } else if env is Some {
            &&& r.0.same_as(
                Settings {
                    navidrome: Navidrome { url: env->0.url, username: env->0.username },
                    ..*settings
                },
            )
            &&& r.1 == Some(env->0.password)
        } else {
            &&& r.0.same_as(*settings)
            &&& r.1 == (match stored {
                Some(c) => Some(c.password),
                None => None,
            })
        },
{
    if settings.source != Source::Navidrome {
        return (settings.clone(), None);
    }
    if let Some(env) = env {
        let mut s = settings.clone();
        s.navidrome = Navidrome { url: env.url, username: env.username };
        return (s, Some(env.password));
    }
    let password = match stored {
        Some(c) => Some(c.password),
        None => None,
    };
    (settings.clone(), password)
}

/// Whether `c` is the client that Navidrome settings and a password ask for.
pub open spec fn is_navidrome_client(
    c: subsonic::Client,
    settings: Settings,
    password: Seq<char>,
    pid: u32,
) -> bool {
    &&& c.base() == subsonic::base_url_of(settings.navidrome.url@)
    &&& c.user() == settings.navidrome.username@
    &&& c.password() == password
    &&& c.process() == pid
}

/// A client speaks for what the settings name: their server, their user, and the
/// password that goes with them.
pub proof fn lemma_client_fields(
    c: subsonic::Client,
    settings: Settings,
    password: Seq<char>,
    pid: u32,
)
    requires
        is_navidrome_client(c, settings, password, pid),
    ensures
        c.base() == subsonic::base_url_of(settings.navidrome.url@),
        c.user() == settings.navidrome.username@,
        c.password() == password,
        c.process() == pid,
{
}

/// Makes the client of the active source, from credentials handed in.
pub fn connect(
    settings: &Settings,
    tokens: Option<Tokens>,
    navidrome_password: Option<String>,
    pid: u32,
) -> (r: Result<SourceClient, ConnectError>)
    ensures
        match settings.source {
            Source::Apple => if tokens is Some && tokens->0.complete() {
                r is Ok && r->Ok_0 is Apple && r->Ok_0->Apple_0.sends() == tokens->0
            } else {
                r == Err::<SourceClient, ConnectError>(ConnectError::NotSignedIn)
            },
            Source::Navidrome => if text::blank(settings.navidrome.url@) || text::blank(
                settings.navidrome.username@,
            ) {
                r == Err::<SourceClient, ConnectError>(ConnectError::NotConfigured)
            } else if navidrome_password is None || navidrome_password->0@.len() == 0 {
                r == Err::<SourceClient, ConnectError>(ConnectError::NotSignedIn)
            } else {
                r is Ok && r->Ok_0 is Navidrome && is_navidrome_client(
                    r->Ok_0->Navidrome_0,
                    *settings,
                    navidrome_password->0@,
                    pid,
                )
            },
            Source::Local => r is Err && r->Err_0 is Unsupported && r->Err_0->Unsupported_0@
                == "local"@,
            Source::Spotify => r is Err && r->Err_0 is Unsupported && r->Err_0->Unsupported_0@
                == "spotify"@,
        },
{
    match settings.source {
        Source::Apple => {
            match tokens {
                Some(t) => if t.is_complete() {
                    Ok(SourceClient::Apple(api::Client::new(t)))
                } else {
                    Err(ConnectError::NotSignedIn)
                },
                None => Err(ConnectError::NotSignedIn),
            }
        },
        Source::Navidrome => {
            let cfg = &settings.navidrome;
            if text::is_blank(cfg.url.as_str()) || text::is_blank(cfg.username.as_str()) {
                return Err(ConnectError::NotConfigured);
            }
            let password = match navidrome_password {
                Some(p) => p,
                None => return Err(ConnectError::NotSignedIn),
            };
            proof {
                reveal_strlit("");
                if password@.len() == 0 {
                    assert(password@ =~= ""@);
                }
            }
            if text::same(password.as_str(), "") {
                return Err(ConnectError::NotSignedIn);
            }
            let creds = subsonic::Credentials {
                base_url: cfg.url.clone(),
                username: cfg.username.clone(),
                password,
            };
            match subsonic::Client::new(creds, pid) {
                Ok(c) => Ok(SourceClient::Navidrome(c)),
                Err(e) => Err(ConnectError::Navidrome(e)),
            }
        },
        Source::Local => Err(ConnectError::Unsupported("local")),
        Source::Spotify => Err(ConnectError::Unsupported("spotify")),
    }
}

/// The Navidrome client for these settings, if the source is Navidrome and a
/// credential exists. Playback and artwork both need one without waiting for a
/// sync to make it.
pub fn navidrome_client(
    settings: &Settings,
    env: Option<NavidromeEnv>,
    stored: Option<NavidromeCredentials>,
    pid: u32,
) -> (r: Option<subsonic::Client>)
    ensures
        ({
            let url = if env is Some {
                env->0.url@
            } else {
                settings.navidrome.url@
            };
            let username = if env is Some {
                env->0.username@
            } else {
                settings.navidrome.username@
            };
            let password = if env is Some {
                Some(env->0.password@)
            } else if stored is Some {
                Some(stored->0.password@)
            } else {
                None
            };
            if settings.source == Source::Navidrome && !text::blank(url) && !text::blank(username)
                && password is Some && password->0.len() > 0 {
                &&& r is Some
                &&& r->0.base() == subsonic::base_url_of(url)
                &&& r->0.user() == username
                &&& r->0.password() == password->0
                &&& r->0.process() == pid
            } else {
                r is None
            }
        }),
{
    let (resolved, password) = resolve(settings, env, stored);
    match connect(&resolved, None, password, pid) {
        Ok(SourceClient::Navidrome(c)) => Some(c),
        _ => None,
    }
}

} // verus!
