//! What is kept in the credential store, and what a reply of the store means.

use vstd::prelude::*;
use crate::text;

verus! {

/// The service name all credentials are stored under.
pub const SERVICE: &'static str = "capsule";

/// Which credential.
#[derive(Debug, Clone, Copy, PartialEq, Eq, Structural)]
pub enum Slot {
    Apple,
    Navidrome,
}

/// The account name a credential is stored under.
pub open spec fn account(slot: Slot) -> Seq<char> {
    match slot {
        Slot::Apple => "apple-music-tokens"@,
        Slot::Navidrome => "navidrome-credentials"@,
    }
}

/// The account name a credential is stored under.
pub fn account_for(slot: Slot) -> (r: &'static str)
    ensures
        r@ == account(slot),
        slot == Slot::Apple ==> r@ == "apple-music-tokens"@,
        slot == Slot::Navidrome ==> r@ == "navidrome-credentials"@,
{
    match slot {
        Slot::Apple => "apple-music-tokens",
        Slot::Navidrome => "navidrome-credentials",
    }
}

/// No two credentials share an account.
pub proof fn lemma_accounts_differ(a: Slot, b: Slot)
    requires
        a != b,
    ensures
        account(a) != account(b),
{
    reveal_strlit("apple-music-tokens");
    reveal_strlit("navidrome-credentials");
    assert("apple-music-tokens"@.len() != "navidrome-credentials"@.len());
}

/// Why a credential could not be read or written.
#[derive(Debug, PartialEq, Eq)]
pub enum AuthError {
    Store(String),
    Malformed(String),
}

impl AuthError {
    /// The message shown for this error.
    pub open spec fn text(self) -> Seq<char> {
        match self {
            AuthError::Store(e) => "credential store unavailable: "@ + e@,
            AuthError::Malformed(e) => "stored credential was malformed: "@ + e@,
        }
    }

    /// The message shown for this error.
    pub fn message(&self) -> (r: String)
        ensures
            r@ == self.text(),
            r@ == (match *self {
                AuthError::Store(e) => "credential store unavailable: "@ + e@,
                AuthError::Malformed(e) => "stored credential was malformed: "@ + e@,
            }),
    {
        match self {
            AuthError::Store(e) => text::concat("credential store unavailable: ", e.as_str()),
            AuthError::Malformed(e) => text::concat(
                "stored credential was malformed: ",
                e.as_str(),
            ),
        }
    }
}

/// What the credential store answered.
#[derive(Debug, PartialEq, Eq)]
pub enum StoreReply<T> {
    Done(T),
    NoEntry,
    Failed(String),
}

/// What a read comes to: an entry that is not there is no error.
pub fn read_reply(reply: StoreReply<String>) -> (r: Result<Option<String>, AuthError>)
    ensures
        r == (match reply {
            StoreReply::Done(s) => Ok::<Option<String>, AuthError>(Some(s)),
            StoreReply::NoEntry => Ok(None),
            StoreReply::Failed(e) => Err(AuthError::Store(e)),
        }),
{
    match reply {
        StoreReply::Done(s) => Ok(Some(s)),
        StoreReply::NoEntry => Ok(None),
        StoreReply::Failed(e) => Err(AuthError::Store(e)),
    }
}

/// What a deletion comes to: an entry that was not there is gone too.
pub fn clear_reply(reply: StoreReply<()>) -> (r: Result<(), AuthError>)
    ensures
        r == (match reply {
            StoreReply::Failed(e) => Err::<(), AuthError>(AuthError::Store(e)),
            _ => Ok(()),
        }),
{
    match reply {
        StoreReply::Done(_) => Ok(()),
        StoreReply::NoEntry => Ok(()),
        StoreReply::Failed(e) => Err(AuthError::Store(e)),
    }
}

/// The pair of tokens that the catalog service wants.
#[derive(Debug, PartialEq, Eq)]
pub struct Tokens {
    pub developer_token: String,
    pub music_user_token: String,
    pub storefront: String,
}

impl Clone for Tokens {
    fn clone(&self) -> (r: Self)
        ensures
            r == *self,
    {
        Tokens {
            developer_token: self.developer_token.clone(),
            music_user_token: self.music_user_token.clone(),
            storefront: self.storefront.clone(),
        }
    }
}

impl Tokens {
    /// Both tokens say something.
    pub open spec fn complete(self) -> bool {
        !text::blank(self.developer_token@) && !text::blank(self.music_user_token@)
    }

    /// Whether both tokens say something.
    pub fn is_complete(&self) -> (r: bool)
        ensures
            r == self.complete(),
            r <==> !text::blank(self.developer_token@) && !text::blank(self.music_user_token@),
    {
        !text::is_blank(self.developer_token.as_str()) && !text::is_blank(
            self.music_user_token.as_str(),
        )
    }
}

/// The password itself is held, because the server's token scheme derives a new
/// digest from it for each request.
#[derive(Debug, PartialEq, Eq)]
pub struct NavidromeCredentials {
    pub password: String,
}

/// What the interface is told about being signed in.
#[derive(Debug, PartialEq, Eq)]
pub struct AuthStatus {
    pub authenticated: bool,
    pub storefront: Option<String>,
}

/// Signed in means holding complete tokens.
pub fn auth_status(tokens: &Option<Tokens>) -> (r: AuthStatus)
    ensures
        r == (if *tokens is Some && (*tokens)->0.complete() {
            AuthStatus { authenticated: true, storefront: Some((*tokens)->0.storefront) }
        } else {
            AuthStatus { authenticated: false, storefront: None }
        }),
{
    match tokens {
        Some(t) => {
            if t.is_complete() {
                AuthStatus { authenticated: true, storefront: Some(t.storefront.clone()) }
            } else {
                AuthStatus { authenticated: false, storefront: None }
            }
        },
        None => AuthStatus { authenticated: false, storefront: None },
    }
}

/// Tokens harvested from the page are kept only if they are complete.
pub fn accept_tokens(tokens: Tokens) -> (r: Option<Tokens>)
    ensures
        r == (if tokens.complete() {
            Some(tokens)
        } else {
            None
        }),
{
    if tokens.is_complete() {
        Some(tokens)
    } else {
        None
    }
}

} // verus!
