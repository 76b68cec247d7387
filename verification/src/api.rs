//! The catalog service's API: what to ask it, how long to keep asking, and how
//! its answers become rows.
//!
//! Authentication is a pair of tokens: the developer token as a bearer, the
//! user token in a header of its own.

use vstd::prelude::*;
use crate::db::{AlbumUpsert, ArtistUpsert, PlaylistUpsert, SongUpsert};
use crate::auth::Tokens;
use crate::outside;
use crate::text;

verus! {

/// Where the API lives.
pub const BASE: &'static str = "https://api.music.apple.com";

/// The site the tokens belong to.
pub const ORIGIN: &'static str = "https://music.apple.com";

/// Items per page.
pub const PAGE: u32 = 100;

/// Guards against a listing that never ends.
pub const MAX_PAGES: u32 = 500;

/// Why a request failed.
#[derive(Debug, PartialEq, Eq)]
pub enum ApiError {
    Http(String),
    Unauthorized,
    RateLimited,
    Status { status: u16, body: String },
}

impl ApiError {
    /// The message shown for this error.
    pub open spec fn text(self) -> Seq<char> {
        match self {
            ApiError::Http(e) => "http: "@ + e@,
            ApiError::Unauthorized => "unauthorized — token rejected"@,
            ApiError::RateLimited => "rate limited after retries"@,
            ApiError::Status { status, body } => "apple returned "@ + text::decimal(status as nat)
                + ": "@ + body@,
        }
    }

    /// The message shown for this error.
    pub fn message(&self) -> (r: String)
        ensures
            r@ == self.text(),
            r@ == (match *self {
                ApiError::Http(e) => "http: "@ + e@,
                ApiError::Unauthorized => "unauthorized — token rejected"@,
                ApiError::RateLimited => "rate limited after retries"@,
                ApiError::Status { status, body } => "apple returned "@ + text::decimal(status as nat)
                    + ": "@ + body@,
            }),
    {
        match self {
            ApiError::Http(e) => text::concat("http: ", e.as_str()),
            ApiError::Unauthorized => "unauthorized — token rejected".to_string(),
            ApiError::RateLimited => "rate limited after retries".to_string(),
            ApiError::Status { status, body } => {
                let mut out = "apple returned ".to_string();
                let shown = text::show(*status as u64);
                out.append(shown.as_str());
                out.append(": ");
                out.append(body.as_str());
                out
            },
        }
    }
}

// ── one request ────────────────────────────────────────────────────────

/// The address of a request: a path is set behind the base, a full address is
/// taken as it is.
pub fn request_url(path_or_url: &str) -> (r: String)
    ensures
        r@ == (if "http"@.is_prefix_of(path_or_url@) {
            path_or_url@
        } else {
            BASE@ + path_or_url@
        }),
        !"http"@.is_prefix_of(path_or_url@) ==> r@ == "https://api.music.apple.com"@ + path_or_url@,
{
    if text::starts_with(path_or_url, "http") {
        path_or_url.to_string()
    } else {
        text::concat(BASE, path_or_url)
    }
}

/// How often a request is made at most.
pub const ATTEMPTS: u32 = 4;

/// The pause after the first attempt.
pub const FIRST_DELAY_MS: u64 = 500;

/// What to do with the status of a response.
#[derive(Debug, Clone, Copy, PartialEq, Eq, Structural)]
pub enum Reply {
    /// Read the body; it is the answer.
    Accept,
    /// The tokens are rejected.
    Unauthorized,
    /// Every attempt was put off.
    RateLimited,
    /// Wait this long, then ask again.
    Wait { ms: u64 },
    /// Any other status; the body says why.
    Refused,
}

/// A success status.
pub open spec fn is_success(status: u16) -> bool {
    200 <= status <= 299
}

/// A status that may go away by itself.
pub open spec fn is_passing(status: u16) -> bool {
    status == 429 || 500 <= status <= 599
}

/// The pause after attempt number `attempt`, counted from zero: it doubles.
pub open spec fn delay_after(attempt: nat) -> nat
    decreases attempt,
{
    if attempt == 0 {
        FIRST_DELAY_MS as nat
    } else {
        2 * delay_after((attempt - 1) as nat)
    }
}

/// A request that is repeated while the server puts it off.
pub struct Retry {
    attempt: u32,
    delay_ms: u64,
}

impl Retry {
    /// How many attempts came back so far.
    pub closed spec fn attempts(&self) -> nat {
        self.attempt as nat
    }

    /// Attempts remain, and the pause is the one that belongs to this attempt.
    pub closed spec fn wf(&self) -> bool {
        self.attempt < ATTEMPTS && self.delay_ms == delay_after(self.attempt as nat)
    }

    /// Before the first attempt.
    pub fn new() -> (r: Self)
        ensures
            r.wf(),
            r.attempts() == 0,
    {
        Retry { attempt: 0, delay_ms: FIRST_DELAY_MS }
    }

    /// A response came with this status.
    pub fn on_status(&mut self, status: u16) -> (r: Reply)
        requires
            old(self).wf(),
        ensures
            r == (if is_success(status) {
                Reply::Accept
            } else if status == 401 || status == 403 {
                Reply::Unauthorized
            } else if is_passing(status) {
                if old(self).attempts() == ATTEMPTS - 1 {
                    Reply::RateLimited
                } else {
                    Reply::Wait { ms: delay_after(old(self).attempts()) as u64 }
                }
            } else {
                Reply::Refused
            }),
            200 <= status <= 299 <==> r == Reply::Accept,
            status == 401 || status == 403 <==> r == Reply::Unauthorized,
            (status == 429 || 500 <= status <= 599) && old(self).attempts() < 3 <==> r is Wait,
            (status == 429 || 500 <= status <= 599) && old(self).attempts() >= 3 <==> r
                == Reply::RateLimited,
            r is Wait ==> final(self).wf() && final(self).attempts() == old(self).attempts() + 1,
            !(r is Wait) ==> *final(self) == *old(self),
    {
        if 200 <= status && status <= 299 {
            return Reply::Accept;
        }
        if status == 401 || status == 403 {
            return Reply::Unauthorized;
        }
        if status == 429 || (500 <= status && status <= 599) {
            if self.attempt == ATTEMPTS - 1 {
                return Reply::RateLimited;
            }
            let ms: u64 = self.delay_ms;
            proof {
                reveal_with_fuel(delay_after, 5);
            }
            self.attempt = self.attempt + 1;
            self.delay_ms = ms * 2;
            return Reply::Wait { ms };
        }
        Reply::Refused
    }
}

/// The pauses double from one attempt to the next.
pub proof fn lemma_delays_double(attempt: nat)
    ensures
        delay_after(attempt) == FIRST_DELAY_MS * vstd::arithmetic::power2::pow2(attempt),
        delay_after(0) == 500,
    decreases attempt,
{
    if attempt == 0 {
        vstd::arithmetic::power2::lemma2_to64();
    } else {
        lemma_delays_double((attempt - 1) as nat);
        vstd::arithmetic::power2::lemma_pow2_unfold(attempt);
    }
}

/// `s` if it has no more than `n` characters, else its first `n` and an ellipsis.
pub fn truncate(s: &str, n: usize) -> (r: String)
    ensures
        r@ == (if s@.len() <= n {
            s@
        } else {
            s@.take(n as int) + "…"@
        }),
{
    let v = text::to_chars(s);
    if v.len() <= n {
        return s.to_string();
    }
    let mut out = text::slice(&v, 0, n);
    assert(v@.subrange(0, n as int) =~= s@.take(n as int));
    out.append("…");
    out
}

/// The error for a status that was refused, with as much of the body as is
/// worth keeping.
pub fn refused(status: u16, body: &str) -> (r: ApiError)
    ensures
        r is Status,
        r->status == status,
        r->body@ == (if body@.len() <= 300 {
            body@
        } else {
            body@.take(300) + "…"@
        }),
{
    ApiError::Status { status, body: truncate(body, 300) }
}

/// A login for the service. Says what a request carries; making it is the
/// caller's part.
pub struct Client {
    tokens: Tokens,
}

impl Client {
    /// The tokens the client sends.
    pub closed spec fn sends(&self) -> Tokens {
        self.tokens
    }

    /// A client for a pair of tokens.
    pub fn new(tokens: Tokens) -> (r: Self)
        ensures
            r.sends() == tokens,
    {
        Client { tokens }
    }

    /// The headers of every request.
    pub fn headers(&self) -> (r: Vec<(String, String)>)
        ensures
            outside::pair_views(r@) == seq![
                ("Authorization"@, "Bearer "@ + self.sends().developer_token@),
                ("Music-User-Token"@, self.sends().music_user_token@),
                ("Origin"@, ORIGIN@),
                ("Referer"@, ORIGIN@ + "/"@),
            ],
            ORIGIN@ == "https://music.apple.com"@,
    {
        let r = vec![
            (
                "Authorization".to_string(),
                text::concat("Bearer ", self.tokens.developer_token.as_str()),
            ),
            ("Music-User-Token".to_string(), self.tokens.music_user_token.clone()),
            ("Origin".to_string(), ORIGIN.to_string()),
            ("Referer".to_string(), text::concat(ORIGIN, "/")),
        ];
        assert(outside::pair_views(r@) =~= seq![
            ("Authorization"@, "Bearer "@ + self.sends().developer_token@),
            ("Music-User-Token"@, self.sends().music_user_token@),
            ("Origin"@, ORIGIN@),
            ("Referer"@, ORIGIN@ + "/"@),
        ]);
        r
    }
}

// ── one listing ────────────────────────────────────────────────────────

/// A walk over the pages of a listing.
pub struct PageWalk {
    pages: u32,
}

impl PageWalk {
    /// How many pages came so far.
    pub closed spec fn seen(&self) -> nat {
        self.pages as nat
    }

    /// Before the first page.
    pub fn new() -> (r: Self)
        ensures
            r.seen() == 0,
    {
        PageWalk { pages: 0 }
    }

    /// A page came, naming the page after it. Where to go on; `None` at the end,
    /// or once the page cap is reached.
    pub fn on_page(&mut self, next: Option<String>) -> (r: Option<String>)
        requires
            old(self).seen() < MAX_PAGES,
        ensures
            final(self).seen() == old(self).seen() + 1,
            old(self).seen() + 1 < 500 ==> r == next,
            old(self).seen() + 1 >= 500 ==> r is None,
            r == (if old(self).seen() + 1 < MAX_PAGES {
                next
            } else {
                None
            }),
    {
        self.pages = self.pages + 1;
        if self.pages >= MAX_PAGES {
            return None;
        }
        next
    }
}

/// A listing of the library, by its name.
fn listing(name: &str) -> (r: String)
    ensures
        r@ == "/v1/me/library/"@ + name@ + "?limit="@ + text::decimal(PAGE as nat),
{
    let mut out = "/v1/me/library/".to_string();
    out.append(name);
    out.append("?limit=");
    let page = text::show(PAGE as u64);
    out.append(page.as_str());
    out
}

/// Where the songs of the library are listed.
pub fn songs_path() -> (r: String)
    ensures
        r@ == "/v1/me/library/"@ + "songs"@ + "?limit="@ + text::decimal(100),
{
    listing("songs")
}

/// Where the albums of the library are listed.
pub fn albums_path() -> (r: String)
    ensures
        r@ == "/v1/me/library/"@ + "albums"@ + "?limit="@ + text::decimal(100),
{
    listing("albums")
}

/// Where the playlists of the library are listed.
pub fn playlists_path() -> (r: String)
    ensures
        r@ == "/v1/me/library/"@ + "playlists"@ + "?limit="@ + text::decimal(100),
{
    listing("playlists")
}

/// Where the artists of the library are listed.
pub fn artists_path() -> (r: String)
    ensures
        r@ == "/v1/me/library/"@ + "artists"@ + "?limit="@ + text::decimal(100),
{
    listing("artists")
}

/// Where the tracks of an album are listed.
pub fn album_tracks_path(album_id: &str) -> (r: String)
    ensures
        r@ == "/v1/me/library/albums/"@ + album_id@ + "/tracks?limit="@ + text::decimal(100),
{
    let mut out = "/v1/me/library/albums/".to_string();
    out.append(album_id);
    out.append("/tracks?limit=");
    let page = text::show(PAGE as u64);
    out.append(page.as_str());
    out
}

/// Where the tracks of a playlist are listed.
pub fn playlist_tracks_path(playlist_id: &str) -> (r: String)
    ensures
        r@ == "/v1/me/library/playlists/"@ + playlist_id@ + "/tracks?limit="@ + text::decimal(100),
{
    let mut out = "/v1/me/library/playlists/".to_string();
    out.append(playlist_id);
    out.append("/tracks?limit=");
    let page = text::show(PAGE as u64);
    out.append(page.as_str());
    out
}

// ── what the service sends ─────────────────────────────────────────────

#[derive(Debug, PartialEq, Eq)]
pub struct Page<T> {
    pub data: Vec<T>,
    pub next: Option<String>,
}

#[derive(Debug, PartialEq, Eq)]
pub struct Artwork {
    pub url: Option<String>,
    pub width: Option<i64>,
    pub height: Option<i64>,
}

#[derive(Debug, PartialEq, Eq)]
pub struct PlayParams {
    pub catalog_id: Option<String>,
}

#[derive(Debug, PartialEq, Eq)]
pub struct Item<A> {
    pub id: String,
    pub attributes: Option<A>,
}

#[derive(Debug, PartialEq, Eq)]
pub struct SongAttrs {
    pub name: Option<String>,
    pub artist_name: Option<String>,
    pub album_name: Option<String>,
    pub duration_in_millis: Option<u64>,
    pub track_number: Option<i64>,
    pub disc_number: Option<i64>,
    pub artwork: Option<Artwork>,
    pub play_params: Option<PlayParams>,
}

#[derive(Debug, PartialEq, Eq)]
pub struct AlbumAttrs {
    pub name: Option<String>,
    pub artist_name: Option<String>,
    pub track_count: Option<u32>,
    pub release_date: Option<String>,
    pub artwork: Option<Artwork>,
    pub play_params: Option<PlayParams>,
}

#[derive(Debug, PartialEq, Eq)]
pub struct Description {
    pub standard: Option<String>,
}

#[derive(Debug, PartialEq, Eq)]
pub struct PlaylistAttrs {
    pub name: Option<String>,
    pub description: Option<Description>,
    pub can_edit: Option<bool>,
    pub artwork: Option<Artwork>,
}

#[derive(Debug, PartialEq, Eq)]
pub struct ArtistAttrs {
    pub name: Option<String>,
    pub artwork: Option<Artwork>,
}

/// An optional string, or the empty one.
pub open spec fn or_empty(s: Option<String>) -> Seq<char> {
    match s {
        Some(t) => t@,
        None => Seq::empty(),
    }
}

fn unwrap_or_empty(s: Option<String>) -> (r: String)
    ensures
        r@ == or_empty(s),
{
    match s {
        Some(t) => t,
        None => String::new(),
    }
}

/// The catalog id that play parameters carry.
pub open spec fn catalog_of(p: Option<PlayParams>) -> Option<String> {
    match p {
        Some(p) => p.catalog_id,
        None => None,
    }
}

/// The address, width and height of an artwork.
pub open spec fn artwork_parts(a: Option<Artwork>) -> (Option<String>, Option<i64>, Option<i64>) {
    match a {
        Some(a) => (a.url, a.width, a.height),
        None => (None, None, None),
    }
}

fn take_artwork(a: Option<Artwork>) -> (r: (Option<String>, Option<i64>, Option<i64>))
    ensures
        r == artwork_parts(a),
{
    match a {
        Some(a) => (a.url, a.width, a.height),
        None => (None, None, None),
    }
}

fn take_catalog(p: Option<PlayParams>) -> (r: Option<String>)
    ensures
        r == catalog_of(p),
{
    match p {
        Some(p) => p.catalog_id,
        None => None,
    }
}

/// Whether a row is what a listed song becomes. Without attributes everything
/// but the id is empty.
pub open spec fn is_song_row(it: Item<SongAttrs>, row: SongUpsert) -> bool {
    &&& row.id == it.id
    &&& row.album_id is None
    &&& row.added_at is None
    &&& match it.attributes {
        Some(a) => {
            &&& row.catalog_id == catalog_of(a.play_params)
            &&& row.name@ == or_empty(a.name)
            &&& row.artist_name@ == or_empty(a.artist_name)
            &&& row.album_name@ == or_empty(a.album_name)
            &&& row.duration_ms == (match a.duration_in_millis {
                Some(d) => d,
                None => 0u64,
            })
            &&& row.track_number == a.track_number
            &&& row.disc_number == a.disc_number
            &&& (row.artwork_url, row.artwork_width, row.artwork_height) == artwork_parts(a.artwork)
        },
        None => {
            &&& row.catalog_id is None
            &&& row.name@.len() == 0
            &&& row.artist_name@.len() == 0
            &&& row.album_name@.len() == 0
            &&& row.duration_ms == 0
            &&& row.track_number is None
            &&& row.disc_number is None
            &&& row.artwork_url is None
            &&& row.artwork_width is None
            &&& row.artwork_height is None
        },
    }
}

/// A song row says what was listed, field by field: its title, whom it is by and
/// what it is on. What was not listed is empty.
pub proof fn lemma_song_row_fields(it: Item<SongAttrs>, row: SongUpsert)
    requires
        is_song_row(it, row),
    ensures
        row.id == it.id,
        row.added_at is None,
        row.album_id is None,
        it.attributes is Some ==> {
            let a = it.attributes->0;
            &&& a.play_params is Some ==> row.catalog_id == a.play_params->0.catalog_id
            &&& a.play_params is None ==> row.catalog_id is None
            &&& a.name is Some ==> row.name@ == a.name->0@
            &&& a.name is None ==> row.name@.len() == 0
            &&& a.artist_name is Some ==> row.artist_name@ == a.artist_name->0@
            &&& a.artist_name is None ==> row.artist_name@.len() == 0
            &&& a.album_name is Some ==> row.album_name@ == a.album_name->0@
            &&& a.album_name is None ==> row.album_name@.len() == 0
            &&& a.duration_in_millis is Some ==> row.duration_ms == a.duration_in_millis->0
            &&& a.duration_in_millis is None ==> row.duration_ms == 0
            &&& row.track_number == a.track_number
            &&& row.disc_number == a.disc_number
            &&& a.artwork is Some ==> row.artwork_url == a.artwork->0.url && row.artwork_width
                == a.artwork->0.width && row.artwork_height == a.artwork->0.height
            &&& a.artwork is None ==> row.artwork_url is None && row.artwork_width is None
                && row.artwork_height is None
        },
        it.attributes is None ==> row.catalog_id is None && row.name@.len() == 0
            && row.artist_name@.len() == 0 && row.album_name@.len() == 0 && row.duration_ms == 0
            && row.track_number is None && row.disc_number is None && row.artwork_url is None
            && row.artwork_width is None && row.artwork_height is None,
{
}

/// The row of a listed song.
pub fn song_from(it: Item<SongAttrs>) -> (r: SongUpsert)
    ensures
        is_song_row(it, r),
        r.id == it.id,
        r.added_at is None,
        r.album_id is None,
        it.attributes is Some ==> {
            let a = it.attributes->0;
            &&& a.play_params is Some ==> r.catalog_id == a.play_params->0.catalog_id
            &&& a.play_params is None ==> r.catalog_id is None
            &&& a.name is Some ==> r.name@ == a.name->0@
            &&& a.name is None ==> r.name@.len() == 0
            &&& a.artist_name is Some ==> r.artist_name@ == a.artist_name->0@
            &&& a.artist_name is None ==> r.artist_name@.len() == 0
            &&& a.album_name is Some ==> r.album_name@ == a.album_name->0@
            &&& a.album_name is None ==> r.album_name@.len() == 0
            &&& a.duration_in_millis is Some ==> r.duration_ms == a.duration_in_millis->0
            &&& a.duration_in_millis is None ==> r.duration_ms == 0
            &&& r.track_number == a.track_number
            &&& r.disc_number == a.disc_number
            &&& a.artwork is Some ==> r.artwork_url == a.artwork->0.url && r.artwork_width
                == a.artwork->0.width && r.artwork_height == a.artwork->0.height
            &&& a.artwork is None ==> r.artwork_url is None && r.artwork_width is None
                && r.artwork_height is None
        },
        it.attributes is None ==> r.catalog_id is None && r.name@.len() == 0
            && r.artist_name@.len() == 0 && r.album_name@.len() == 0 && r.duration_ms == 0
            && r.track_number is None && r.disc_number is None && r.artwork_url is None
            && r.artwork_width is None && r.artwork_height is None,
{
    match it.attributes {
        Some(a) => {
            let (artwork_url, artwork_width, artwork_height) = take_artwork(a.artwork);
            SongUpsert {
                id: it.id,
                catalog_id: take_catalog(a.play_params),
                name: unwrap_or_empty(a.name),
                artist_name: unwrap_or_empty(a.artist_name),
                album_name: unwrap_or_empty(a.album_name),
                album_id: None,
                duration_ms: match a.duration_in_millis {
                    Some(d) => d,
                    None => 0,
                },
                artwork_url,
                track_number: a.track_number,
                disc_number: a.disc_number,
                added_at: None,
                artwork_width,
                artwork_height,
            }
        },
        None => {
            let mut row = SongUpsert::default();
            row.id = it.id;
            row
        },
    }
}

/// Whether a row is what a listed album becomes.
pub open spec fn is_album_row(it: Item<AlbumAttrs>, row: AlbumUpsert) -> bool {
    &&& row.id == it.id
    &&& row.added_at is None
    &&& match it.attributes {
        Some(a) => {
            &&& row.catalog_id == catalog_of(a.play_params)
            &&& row.name@ == or_empty(a.name)
            &&& row.artist_name@ == or_empty(a.artist_name)
            &&& row.release_date == a.release_date
            &&& row.track_count == (match a.track_count {
                Some(n) => n,
                None => 0u32,
            })
            &&& (row.artwork_url, row.artwork_width, row.artwork_height) == artwork_parts(a.artwork)
        },
        None => {
            &&& row.catalog_id is None
            &&& row.name@.len() == 0
            &&& row.artist_name@.len() == 0
            &&& row.release_date is None
            &&& row.track_count == 0
            &&& row.artwork_url is None
            &&& row.artwork_width is None
            &&& row.artwork_height is None
        },
    }
}

/// An album row says what was listed, field by field.
pub proof fn lemma_album_row_fields(it: Item<AlbumAttrs>, row: AlbumUpsert)
    requires
        is_album_row(it, row),
    ensures
        row.id == it.id,
        row.added_at is None,
        it.attributes is Some ==> {
            let a = it.attributes->0;
            &&& a.play_params is Some ==> row.catalog_id == a.play_params->0.catalog_id
            &&& a.play_params is None ==> row.catalog_id is None
            &&& a.name is Some ==> row.name@ == a.name->0@
            &&& a.name is None ==> row.name@.len() == 0
            &&& a.artist_name is Some ==> row.artist_name@ == a.artist_name->0@
            &&& a.artist_name is None ==> row.artist_name@.len() == 0
            &&& row.release_date == a.release_date
            &&& a.track_count is Some ==> row.track_count == a.track_count->0
            &&& a.track_count is None ==> row.track_count == 0
            &&& a.artwork is Some ==> row.artwork_url == a.artwork->0.url && row.artwork_width
                == a.artwork->0.width && row.artwork_height == a.artwork->0.height
            &&& a.artwork is None ==> row.artwork_url is None && row.artwork_width is None
                && row.artwork_height is None
        },
        it.attributes is None ==> row.catalog_id is None && row.name@.len() == 0
            && row.artist_name@.len() == 0 && row.release_date is None && row.track_count == 0
            && row.artwork_url is None && row.artwork_width is None && row.artwork_height is None,
{
}

/// The row of a listed album.
pub fn album_from(it: Item<AlbumAttrs>) -> (r: AlbumUpsert)
    ensures
        is_album_row(it, r),
        r.id == it.id,
        r.added_at is None,
        it.attributes is Some ==> {
            let a = it.attributes->0;
            &&& a.play_params is Some ==> r.catalog_id == a.play_params->0.catalog_id
            &&& a.play_params is None ==> r.catalog_id is None
            &&& a.name is Some ==> r.name@ == a.name->0@
            &&& a.name is None ==> r.name@.len() == 0
            &&& a.artist_name is Some ==> r.artist_name@ == a.artist_name->0@
            &&& a.artist_name is None ==> r.artist_name@.len() == 0
            &&& r.release_date == a.release_date
            &&& a.track_count is Some ==> r.track_count == a.track_count->0
            &&& a.track_count is None ==> r.track_count == 0
            &&& a.artwork is Some ==> r.artwork_url == a.artwork->0.url && r.artwork_width
                == a.artwork->0.width && r.artwork_height == a.artwork->0.height
            &&& a.artwork is None ==> r.artwork_url is None && r.artwork_width is None
                && r.artwork_height is None
        },
        it.attributes is None ==> r.catalog_id is None && r.name@.len() == 0
            && r.artist_name@.len() == 0 && r.release_date is None && r.track_count == 0
            && r.artwork_url is None && r.artwork_width is None && r.artwork_height is None,
{
    match it.attributes {
        Some(a) => {
            let (artwork_url, artwork_width, artwork_height) = take_artwork(a.artwork);
            AlbumUpsert {
                id: it.id,
                catalog_id: take_catalog(a.play_params),
                name: unwrap_or_empty(a.name),
                artist_name: unwrap_or_empty(a.artist_name),
                artwork_url,
                release_date: a.release_date,
                track_count: match a.track_count {
                    Some(n) => n,
                    None => 0,
                },
                added_at: None,
                artwork_width,
                artwork_height,
            }
        },
        None => {
            let mut row = AlbumUpsert::default();
            row.id = it.id;
            row
        },
    }
}

/// Whether a row is what a listed artist becomes.
pub open spec fn is_artist_row(it: Item<ArtistAttrs>, row: ArtistUpsert) -> bool {
    &&& row.id == it.id
    &&& match it.attributes {
        Some(a) => row.name@ == or_empty(a.name) && row.artwork_url == artwork_parts(a.artwork).0,
        None => row.name@.len() == 0 && row.artwork_url is None,
    }
}

/// An artist row says what was listed, field by field.
pub proof fn lemma_artist_row_fields(it: Item<ArtistAttrs>, row: ArtistUpsert)
    requires
        is_artist_row(it, row),
    ensures
        row.id == it.id,
        it.attributes is Some ==> {
            let a = it.attributes->0;
            &&& a.name is Some ==> row.name@ == a.name->0@
            &&& a.name is None ==> row.name@.len() == 0
            &&& a.artwork is Some ==> row.artwork_url == a.artwork->0.url
            &&& a.artwork is None ==> row.artwork_url is None
        },
        it.attributes is None ==> row.name@.len() == 0 && row.artwork_url is None,
{
}

/// The row of a listed artist.
pub fn artist_from(it: Item<ArtistAttrs>) -> (r: ArtistUpsert)
    ensures
        is_artist_row(it, r),
        r.id == it.id,
        it.attributes is Some ==> {
            let a = it.attributes->0;
            &&& a.name is Some ==> r.name@ == a.name->0@
            &&& a.name is None ==> r.name@.len() == 0
            &&& a.artwork is Some ==> r.artwork_url == a.artwork->0.url
            &&& a.artwork is None ==> r.artwork_url is None
        },
        it.attributes is None ==> r.name@.len() == 0 && r.artwork_url is None,
{
    match it.attributes {
        Some(a) => {
            let (artwork_url, _, _) = take_artwork(a.artwork);
            ArtistUpsert { id: it.id, name: unwrap_or_empty(a.name), artwork_url }
        },
        None => ArtistUpsert { id: it.id, name: String::new(), artwork_url: None },
    }
}

/// Whether a row is what a listed playlist becomes.
pub open spec fn is_playlist_row(it: Item<PlaylistAttrs>, row: PlaylistUpsert) -> bool {
    &&& row.id == it.id
    &&& match it.attributes {
        Some(a) => {
            &&& row.name@ == or_empty(a.name)
            &&& row.description == (match a.description {
                Some(d) => d.standard,
                None => None,
            })
            &&& row.can_edit == (a.can_edit == Some(true))
            &&& (row.artwork_url, row.artwork_width, row.artwork_height) == artwork_parts(a.artwork)
        },
        None => {
            &&& row.name@.len() == 0
            &&& row.description is None
            &&& !row.can_edit
            &&& row.artwork_url is None
            &&& row.artwork_width is None
            &&& row.artwork_height is None
        },
    }
}

/// A playlist row says what was listed, field by field.
pub proof fn lemma_playlist_row_fields(it: Item<PlaylistAttrs>, row: PlaylistUpsert)
    requires
        is_playlist_row(it, row),
    ensures
        row.id == it.id,
        it.attributes is Some ==> {
            let a = it.attributes->0;
            &&& a.name is Some ==> row.name@ == a.name->0@
            &&& a.name is None ==> row.name@.len() == 0
            &&& a.description is Some ==> row.description == a.description->0.standard
            &&& a.description is None ==> row.description is None
            &&& row.can_edit <==> a.can_edit is Some && a.can_edit->0
            &&& a.artwork is Some ==> row.artwork_url == a.artwork->0.url && row.artwork_width
                == a.artwork->0.width && row.artwork_height == a.artwork->0.height
            &&& a.artwork is None ==> row.artwork_url is None && row.artwork_width is None
                && row.artwork_height is None
        },
        it.attributes is None ==> row.name@.len() == 0 && row.description is None && !row.can_edit
            && row.artwork_url is None && row.artwork_width is None && row.artwork_height is None,
{
}

/// The row of a listed playlist.
pub fn playlist_from(it: Item<PlaylistAttrs>) -> (r: PlaylistUpsert)
    ensures
        is_playlist_row(it, r),
        r.id == it.id,
        it.attributes is Some ==> {
            let a = it.attributes->0;
            &&& a.name is Some ==> r.name@ == a.name->0@
            &&& a.name is None ==> r.name@.len() == 0
            &&& a.description is Some ==> r.description == a.description->0.standard
            &&& a.description is None ==> r.description is None
            &&& r.can_edit <==> a.can_edit is Some && a.can_edit->0
            &&& a.artwork is Some ==> r.artwork_url == a.artwork->0.url && r.artwork_width
                == a.artwork->0.width && r.artwork_height == a.artwork->0.height
            &&& a.artwork is None ==> r.artwork_url is None && r.artwork_width is None
                && r.artwork_height is None
        },
        it.attributes is None ==> r.name@.len() == 0 && r.description is None && !r.can_edit
            && r.artwork_url is None && r.artwork_width is None && r.artwork_height is None,
{
    match it.attributes {
        Some(a) => {
            let (artwork_url, artwork_width, artwork_height) = take_artwork(a.artwork);
            PlaylistUpsert {
                id: it.id,
                name: unwrap_or_empty(a.name),
                description: match a.description {
                    Some(d) => d.standard,
                    None => None,
                },
                artwork_url,
                can_edit: match a.can_edit {
                    Some(b) => b,
                    None => false,
                },
                artwork_width,
                artwork_height,
            }
        },
        None => {
            let mut row = PlaylistUpsert::default();
            row.id = it.id;
            row
        },
    }
}

/// The rows of the tracks listed for an album, which all belong to it.
pub fn album_track_rows(items: Vec<Item<SongAttrs>>, album_id: &str) -> (r: Vec<SongUpsert>)
    ensures
        r@.len() == items@.len(),
        forall|i: int|
            0 <= i < r@.len() ==> text::view_of((#[trigger] r@[i]).album_id) == Some(album_id@)
                && is_song_row(items@[i], (SongUpsert { album_id: None, ..r@[i] })),
        forall|i: int|
            0 <= i < r@.len() ==> {
                let row = #[trigger] r@[i];
                let it = items@[i];
                &&& row.id == it.id
                &&& it.attributes is Some && it.attributes->0.name is Some ==> row.name@
                    == it.attributes->0.name->0@
                &&& it.attributes is Some && it.attributes->0.artist_name is Some
                    ==> row.artist_name@ == it.attributes->0.artist_name->0@
                &&& it.attributes is Some && it.attributes->0.album_name is Some ==> row.album_name@
                    == it.attributes->0.album_name->0@
                &&& it.attributes is Some && it.attributes->0.album_name is None
                    ==> row.album_name@.len() == 0
            },
{
    let mut out: Vec<SongUpsert> = Vec::new();
    for item in it: items
        invariant
            it.seq() == items@,
            out@.len() == it.index(),
            forall|i: int|
                0 <= i < out@.len() ==> text::view_of((#[trigger] out@[i]).album_id) == Some(
                    album_id@,
                ) && is_song_row(items@[i], (SongUpsert { album_id: None, ..out@[i] })),
    {
        let mut row = song_from(item);
        row.album_id = Some(album_id.to_string());
        out.push(row);
    }
    out
}

/// The rows of listed songs, in order.
pub fn song_rows(items: Vec<Item<SongAttrs>>) -> (r: Vec<SongUpsert>)
    ensures
        r@.len() == items@.len(),
        forall|i: int| 0 <= i < r@.len() ==> is_song_row(items@[i], #[trigger] r@[i]),
        forall|i: int|
            0 <= i < r@.len() ==> {
                let row = #[trigger] r@[i];
                let it = items@[i];
                &&& row.id == it.id
                &&& it.attributes is Some && it.attributes->0.name is Some ==> row.name@
                    == it.attributes->0.name->0@
                &&& it.attributes is Some && it.attributes->0.artist_name is Some
                    ==> row.artist_name@ == it.attributes->0.artist_name->0@
                &&& it.attributes is Some && it.attributes->0.album_name is Some ==> row.album_name@
                    == it.attributes->0.album_name->0@
                &&& it.attributes is Some && it.attributes->0.album_name is None
                    ==> row.album_name@.len() == 0
            },
{
    let mut out: Vec<SongUpsert> = Vec::new();
    for item in it: items
        invariant
            it.seq() == items@,
            out@.len() == it.index(),
            forall|i: int| 0 <= i < out@.len() ==> is_song_row(items@[i], #[trigger] out@[i]),
    {
        out.push(song_from(item));
    }
    out
}

} // verus!
