//! The Subsonic API, as Navidrome speaks it.
//!
//! Authentication is the protocol's salted-token scheme: a digest of the
//! password and a fresh salt goes with each request, the password itself never
//! does.

use vstd::prelude::*;
use vstd::utf8::*;
use crate::db::{AlbumUpsert, ArtistUpsert, PlaylistUpsert, SongUpsert};
use crate::outside;
use crate::text;

verus! {

/// The protocol version claimed in each request.
pub const API_VERSION: &'static str = "1.16.1";

/// The client identifier sent as `c`; servers log this.
pub const CLIENT_NAME: &'static str = "capsule";

/// Why a call to the server failed.
#[derive(Debug, PartialEq, Eq)]
pub enum SubsonicError {
    Http(String),
    Unauthorized,
    InvalidUrl(String),
    Api { code: i32, message: String },
    Malformed(String),
}

impl SubsonicError {
    /// The message shown for this error.
    pub open spec fn text(self) -> Seq<char> {
        match self {
            SubsonicError::Http(e) => "http: "@ + e@,
            SubsonicError::Unauthorized => "wrong username or password"@,
            SubsonicError::InvalidUrl(e) => "server url is not usable: "@ + e@,
            SubsonicError::Api { code, message } => "server returned error "@ + text::decimal_int(
                code as int,
            ) + ": "@ + message@,
            SubsonicError::Malformed(e) => "server response was not valid subsonic json: "@ + e@,
        }
    }

    /// The message shown for this error.
    pub fn message(&self) -> (r: String)
        ensures
            r@ == self.text(),
            r@ == (match *self {
                SubsonicError::Http(e) => "http: "@ + e@,
                SubsonicError::Unauthorized => "wrong username or password"@,
                SubsonicError::InvalidUrl(e) => "server url is not usable: "@ + e@,
                SubsonicError::Api { code, message } => "server returned error "@ + text::decimal_int(
                    code as int,
                ) + ": "@ + message@,
                SubsonicError::Malformed(e) => "server response was not valid subsonic json: "@ + e@,
            }),
    {
        match self {
            SubsonicError::Http(e) => text::concat("http: ", e.as_str()),
            SubsonicError::Unauthorized => "wrong username or password".to_string(),
            SubsonicError::InvalidUrl(e) => text::concat("server url is not usable: ", e.as_str()),
            SubsonicError::Api { code, message } => {
                let mut out = "server returned error ".to_string();
                let shown = text::show_signed(*code as i64);
                out.append(shown.as_str());
                out.append(": ");
                out.append(message.as_str());
                out
            },
            SubsonicError::Malformed(e) => text::concat(
                "server response was not valid subsonic json: ",
                e.as_str(),
            ),
        }
    }
}

// ── signing ────────────────────────────────────────────────────────────

/// The digest that stands in for the password.
pub open spec fn token_of(password: Seq<char>, salt: Seq<char>) -> Seq<char> {
    outside::md5_of(password + salt)
}

/// The digest that stands in for the password.
pub fn auth_token(password: &str, salt: &str) -> (r: String)
    ensures
        r@ == token_of(password@, salt@),
        r@ == outside::md5_of(password@ + salt@),
        outside::is_hex_text(r@, 32),
{
    let salted = text::concat(password, salt);
    outside::md5_hex(salted.as_str())
}

/// The six parameters every call carries, given the digest.
pub open spec fn auth_params(user: Seq<char>, token: Seq<char>, salt: Seq<char>) -> Seq<
    (Seq<char>, Seq<char>),
> {
    seq![
        ("u"@, user),
        ("t"@, token),
        ("s"@, salt),
        ("v"@, API_VERSION@),
        ("c"@, CLIENT_NAME@),
        ("f"@, "json"@),
    ]
}

/// The six query parameters every call carries. The password is none of them.
pub fn auth_query(user: &str, password: &str, salt: &str) -> (r: Vec<(String, String)>)
    ensures
        outside::pair_views(r@) == auth_params(user@, token_of(password@, salt@), salt@),
        outside::pair_views(r@) == seq![
            ("u"@, user@),
            ("t"@, outside::md5_of(password@ + salt@)),
            ("s"@, salt@),
            ("v"@, "1.16.1"@),
            ("c"@, "capsule"@),
            ("f"@, "json"@),
        ],
        forall|i: int| 0 <= i < r@.len() ==> (#[trigger] r@[i]).0@ != "p"@,
{
    let r = vec![
        ("u".to_string(), user.to_string()),
        ("t".to_string(), auth_token(password, salt)),
        ("s".to_string(), salt.to_string()),
        ("v".to_string(), API_VERSION.to_string()),
        ("c".to_string(), CLIENT_NAME.to_string()),
        ("f".to_string(), "json".to_string()),
    ];
    assert(outside::pair_views(r@) =~= auth_params(user@, token_of(password@, salt@), salt@));
    proof {
        reveal_strlit("u");
        reveal_strlit("t");
        reveal_strlit("s");
        reveal_strlit("v");
        reveal_strlit("c");
        reveal_strlit("f");
        reveal_strlit("p");
        assert forall|i: int| 0 <= i < r@.len() implies (#[trigger] r@[i]).0@ != "p"@ by {
            assert(r@[i].0@[0] != 'p');
        }
    }
    r
}

/// Whether a text names one of the two schemes.
pub open spec fn has_scheme(s: Seq<char>) -> bool {
    "http://"@.is_prefix_of(s) || "https://"@.is_prefix_of(s)
}

/// A server address as typed, made usable: https unless a scheme is given, and
/// no slash at the end.
pub open spec fn base_url_of(raw: Seq<char>) -> Seq<char> {
    let t = text::trimmed(raw);
    let full = if has_scheme(t) {
        t
    } else {
        "https://"@ + t
    };
    text::without_trailing(full, '/')
}

/// Makes a server address usable; a blank one is refused. An unqualified host
/// gets https, because the digest could be replayed over plain text.
pub fn normalize_base_url(raw: &str) -> (r: Result<String, SubsonicError>)
    ensures
        match r {
            Ok(u) => !text::blank(raw@) && u@ == base_url_of(raw@),
            Err(e) => text::blank(raw@) && e is InvalidUrl && e->InvalidUrl_0@ == "empty"@,
        },
{
    let trimmed = text::trim(raw);
    proof {
        text::lemma_trimmed_blank(raw@);
        reveal_strlit("");
        if trimmed@.len() == 0 {
            assert(trimmed@ =~= ""@);
        }
    }
    if text::same(trimmed.as_str(), "") {
        return Err(SubsonicError::InvalidUrl("empty".to_string()));
    }
    let with_scheme = if text::starts_with(trimmed.as_str(), "http://") || text::starts_with(
        trimmed.as_str(),
        "https://",
    ) {
        trimmed
    } else {
        text::concat("https://", trimmed.as_str())
    };
    Ok(text::trim_trailing(with_scheme.as_str(), '/'))
}

/// What an address comes out as: the scheme that was typed is kept, https is put in
/// front of any other, and the slashes at the end are all that goes.
pub proof fn lemma_base_url(raw: Seq<char>)
    ensures
        ({
            let t = text::trimmed(raw);
            let typed = "http://"@.is_prefix_of(t) || "https://"@.is_prefix_of(t);
            let full = if typed {
                t
            } else {
                "https://"@ + t
            };
            &&& base_url_of(raw).is_prefix_of(full)
            &&& base_url_of(raw).len() > 0 ==> base_url_of(raw).last() != '/'
            &&& forall|i: int| base_url_of(raw).len() <= i < full.len() ==> full[i] == '/'
        }),
{
    let t = text::trimmed(raw);
    let full = if has_scheme(t) {
        t
    } else {
        "https://"@ + t
    };
    lemma_without_trailing(full, '/');
}

proof fn lemma_without_trailing(s: Seq<char>, c: char)
    ensures
        text::without_trailing(s, c).is_prefix_of(s),
        text::without_trailing(s, c).len() > 0 ==> text::without_trailing(s, c).last() != c,
        forall|i: int| text::without_trailing(s, c).len() <= i < s.len() ==> s[i] == c,
    decreases s.len(),
{
    if s.len() > 0 && s.last() == c {
        lemma_without_trailing(s.drop_last(), c);
        assert forall|i: int| text::without_trailing(s, c).len() <= i < s.len() implies s[i] == c by {
            if i < s.len() - 1 {
                assert(s.drop_last()[i] == s[i]);
            }
        }
    }
}

/// An address that came out usable stays as it is when it is made usable again:
/// it has a scheme, no white space around it and no slash at its end.
pub proof fn lemma_normalizing_settles(raw: Seq<char>)
    requires
        has_scheme(base_url_of(raw)),
        text::trimmed(base_url_of(raw)) == base_url_of(raw),
    ensures
        base_url_of(base_url_of(raw)) == base_url_of(raw),
{
    let t = text::trimmed(raw);
    let full = if has_scheme(t) {
        t
    } else {
        "https://"@ + t
    };
    lemma_without_trailing_settles(full, '/');
}

proof fn lemma_without_trailing_settles(s: Seq<char>, c: char)
    ensures
        text::without_trailing(text::without_trailing(s, c), c) == text::without_trailing(s, c),
    decreases s.len(),
{
    if s.len() > 0 && s.last() == c {
        lemma_without_trailing_settles(s.drop_last(), c);
    }
}

/// Whether an address would send the digest in plain text. A warning, not a
/// refusal: a server on the local network is a legitimate setup.
pub fn is_insecure(base_url: &str) -> (r: bool)
    ensures
        r == "http://"@.is_prefix_of(text::trimmed(base_url@)),
{
    let t = text::trim(base_url);
    text::starts_with(t.as_str(), "http://")
}

/// The salt made of a point in time and a process.
pub open spec fn salt_of(nanos: nat, pid: nat) -> Seq<char> {
    outside::md5_of(text::decimal(nanos) + text::decimal(pid)).take(12)
}

/// The salt made of a point in time and a process: twelve hexadecimal digits.
pub fn salt_from(nanos: u128, pid: u32) -> (r: String)
    ensures
        r@ == salt_of(nanos as nat, pid as nat),
        r@ == outside::md5_of(text::decimal(nanos as nat) + text::decimal(pid as nat)).take(12),
        outside::is_hex_text(r@, 12),
{
    let mut seed = String::new();
    text::push_decimal(&mut seed, nanos);
    text::push_decimal(&mut seed, pid as u128);
    assert(seed@ =~= text::decimal(nanos as nat) + text::decimal(pid as nat));
    let digest = outside::md5_hex(seed.as_str());
    let v = text::to_chars(digest.as_str());
    assert(v@.subrange(0, 12) =~= digest@.take(12));
    text::slice(&v, 0, 12)
}

/// A fresh salt for one request: of the time it is, or of zero where the clock
/// stands before the epoch.
pub fn random_salt(pid: u32) -> (r: String)
    ensures
        outside::is_hex_text(r@, 12),
        exists|nanos: nat| r@ == #[trigger] salt_of(nanos, pid as nat),
{
    let nanos: u128 = match outside::since_epoch() {
        Some((secs, n)) => (secs as u128) * 1_000_000_000 + n as u128,
        None => 0,
    };
    salt_from(nanos, pid)
}

/// Cover art is an opaque id, not a URL, and fetching one needs credentials. A
/// reference of this form is stored, and signed only when it is fetched.
pub const ARTWORK_PREFIX: &'static str = "subsonic:";

/// How a cover id is stored; a blank one is none.
pub open spec fn stored_cover(id: Option<String>) -> Option<Seq<char>> {
    if id is Some && !text::blank(id->0@) {
        Some(ARTWORK_PREFIX@ + id->0@)
    } else {
        None
    }
}

/// How a cover id is stored.
pub fn cover_art_ref(id: Option<String>) -> (r: Option<String>)
    ensures
        text::view_of(r) == stored_cover(id),
        r is Some <==> id is Some && !text::blank(id->0@),
        r is Some ==> r->0@ == "subsonic:"@ + id->0@,
{
    match id {
        Some(s) => {
            if text::is_blank(s.as_str()) {
                None
            } else {
                Some(text::concat(ARTWORK_PREFIX, s.as_str()))
            }
        },
        None => None,
    }
}

// ── what the server sends ──────────────────────────────────────────────

#[derive(Debug, PartialEq, Eq)]
pub struct ArtistIndex {
    pub index: Vec<ArtistIndexEntry>,
}

#[derive(Debug, PartialEq, Eq)]
pub struct ArtistIndexEntry {
    pub artist: Vec<WireArtist>,
}

#[derive(Debug, PartialEq, Eq)]
pub struct WireArtist {
    pub id: String,
    pub name: String,
    pub cover_art: Option<String>,
}

#[derive(Debug, PartialEq, Eq)]
pub struct AlbumList {
    pub album: Vec<WireAlbum>,
}

#[derive(Debug, PartialEq, Eq)]
pub struct WireAlbum {
    pub id: String,
    pub name: String,
    pub artist: String,
    pub song_count: u32,
    pub year: Option<i64>,
    pub cover_art: Option<String>,
    pub created: Option<String>,
}

#[derive(Debug, PartialEq, Eq)]
pub struct WireAlbumDetail {
    pub id: String,
    pub song: Vec<WireSong>,
}

#[derive(Debug, PartialEq, Eq)]
pub struct WireSong {
    pub id: String,
    pub title: String,
    pub artist: String,
    pub album: String,
    /// Seconds.
    pub duration: Option<u64>,
    pub track: Option<i64>,
    pub disc_number: Option<i64>,
    pub cover_art: Option<String>,
    pub created: Option<String>,
}

#[derive(Debug, PartialEq, Eq)]
pub struct PlaylistList {
    pub playlist: Vec<WirePlaylist>,
}

#[derive(Debug, PartialEq, Eq)]
pub struct WirePlaylist {
    pub id: String,
    pub name: String,
    pub comment: Option<String>,
    pub cover_art: Option<String>,
}

#[derive(Debug, PartialEq, Eq)]
pub struct WirePlaylistDetail {
    pub id: String,
    pub entry: Vec<WirePlaylistEntry>,
}

#[derive(Debug, PartialEq, Eq)]
pub struct WirePlaylistEntry {
    pub id: String,
}

/// The artists of an index, in order.
pub open spec fn flat_artists(index: Seq<ArtistIndexEntry>) -> Seq<WireArtist>
    decreases index.len(),
{
    if index.len() == 0 {
        Seq::empty()
    } else {
        flat_artists(index.drop_last()) + index.last().artist@
    }
}

/// Whether a row is what an artist of the wire becomes.
pub open spec fn is_artist_row(a: WireArtist, row: ArtistUpsert) -> bool {
    &&& row.id == a.id
    &&& row.name == a.name
    &&& text::view_of(row.artwork_url) == stored_cover(a.cover_art)
}

/// One row per artist of the index, in order.
pub fn artists_from(index: ArtistIndex) -> (r: Vec<ArtistUpsert>)
    ensures
        r@.len() == flat_artists(index.index@).len(),
        forall|i: int|
            0 <= i < r@.len() ==> is_artist_row(flat_artists(index.index@)[i], #[trigger] r@[i]),
        forall|i: int|
            0 <= i < r@.len() ==> (#[trigger] r@[i]).id == flat_artists(index.index@)[i].id
                && r@[i].name == flat_artists(index.index@)[i].name,
{
    let entries = index.index;
    let mut out: Vec<ArtistUpsert> = Vec::new();
    let mut i: usize = 0;
    while i < entries.len()
        invariant
            i <= entries@.len(),
            out@.len() == flat_artists(entries@.take(i as int)).len(),
            forall|k: int|
                0 <= k < out@.len() ==> is_artist_row(
                    flat_artists(entries@.take(i as int))[k],
                    #[trigger] out@[k],
                ),
        decreases entries@.len() - i,
    {
        let ghost before = flat_artists(entries@.take(i as int));
        let ghost group = entries@[i as int].artist@;
        let mut j: usize = 0;
        while j < entries[i].artist.len()
            invariant
                i < entries@.len(),
                group == entries@[i as int].artist@,
                j <= group.len(),
                out@.len() == before.len() + j,
                forall|k: int|
                    0 <= k < before.len() ==> is_artist_row(before[k], #[trigger] out@[k]),
                forall|k: int|
                    before.len() <= k < out@.len() ==> is_artist_row(
                        group[k - before.len()],
                        #[trigger] out@[k],
                    ),
            decreases group.len() - j,
        {
            let a = &entries[i].artist[j];
            out.push(
                ArtistUpsert {
                    id: a.id.clone(),
                    name: a.name.clone(),
                    artwork_url: cover_art_ref(text::copy_opt(&a.cover_art)),
                },
            );
            j += 1;
        }
        assert(entries@.take(i + 1).drop_last() =~= entries@.take(i as int));
        assert(entries@.take(i + 1).last() == entries@[i as int]);
        assert(flat_artists(entries@.take(i + 1)) =~= before + group);
        i += 1;
    }
    assert(entries@.take(i as int) =~= entries@);
    out
}

/// An artist row says what the server sent, field by field.
pub proof fn lemma_artist_row_fields(a: WireArtist, row: ArtistUpsert)
    requires
        is_artist_row(a, row),
    ensures
        row.id == a.id,
        row.name == a.name,
        is_cover_of(row.artwork_url, a.cover_art),
{
}

/// An index is read group by group: artist `j` of group `i` stands behind all of
/// the groups before it, and nothing else is listed.
pub proof fn lemma_flat_artists(index: Seq<ArtistIndexEntry>, i: int, j: int)
    requires
        0 <= i < index.len(),
        0 <= j < index[i].artist@.len(),
    ensures
        flat_artists(index.take(i)).len() + j < flat_artists(index).len(),
        flat_artists(index)[flat_artists(index.take(i)).len() + j] == index[i].artist@[j],
        flat_artists(index.take(i + 1)).len() == flat_artists(index.take(i)).len()
            + index[i].artist@.len(),
        flat_artists(index.take(0)).len() == 0,
    decreases index.len(),
{
    let front = index.drop_last();
    assert(index.take(i + 1).drop_last() =~= index.take(i));
    assert(index.take(i + 1).last() == index[i]);
    assert(index.take(0) =~= Seq::empty());
    if i < front.len() {
        lemma_flat_artists(front, i, j);
        assert(front.take(i) =~= index.take(i));
        assert(front[i] == index[i]);
    } else {
        assert(index.take(i) =~= front);
    }
}

/// How a cover reference answers to the id the server sent: the id behind
/// `subsonic:`, or none where the id is missing or blank.
pub open spec fn is_cover_of(cover: Option<String>, id: Option<String>) -> bool {
    if id is Some && !text::blank(id->0@) {
        cover is Some && cover->0@ == "subsonic:"@ + id->0@
    } else {
        cover is None
    }
}

/// Whether a row is what an album of the wire becomes. The catalog id and the
/// cover's size have no counterpart there.
pub open spec fn is_album_row(a: WireAlbum, row: AlbumUpsert) -> bool {
    &&& row.id == a.id
    &&& row.catalog_id is None
    &&& row.name == a.name
    &&& row.artist_name == a.artist
    &&& text::view_of(row.artwork_url) == stored_cover(a.cover_art)
    &&& text::view_of(row.release_date) == (match a.year {
        Some(y) => Some(text::decimal_int(y as int)),
        None => None,
    })
    &&& row.track_count == a.song_count
    &&& row.added_at == a.created
    &&& row.artwork_width is None
    &&& row.artwork_height is None
}

/// The row of an album.
pub fn album_from(a: WireAlbum) -> (r: AlbumUpsert)
    ensures
        is_album_row(a, r),
        r.id == a.id,
        r.catalog_id is None,
        r.name == a.name,
        r.artist_name == a.artist,
        is_cover_of(r.artwork_url, a.cover_art),
        r.release_date is Some <==> a.year is Some,
        a.year is Some ==> r.release_date->0@ == text::decimal_int(a.year->0 as int),
        r.track_count == a.song_count,
        r.added_at == a.created,
        r.artwork_width is None,
        r.artwork_height is None,
{
    AlbumUpsert {
        id: a.id,
        catalog_id: None,
        name: a.name,
        artist_name: a.artist,
        artwork_url: cover_art_ref(a.cover_art),
        release_date: match a.year {
            Some(y) => Some(text::show_signed(y)),
            None => None,
        },
        track_count: a.song_count,
        added_at: a.created,
        artwork_width: None,
        artwork_height: None,
    }
}

/// An album row says what the server sent, field by field.
pub proof fn lemma_album_row_fields(a: WireAlbum, row: AlbumUpsert)
    requires
        is_album_row(a, row),
    ensures
        row.id == a.id,
        row.catalog_id is None,
        row.name == a.name,
        row.artist_name == a.artist,
        is_cover_of(row.artwork_url, a.cover_art),
        row.release_date is Some <==> a.year is Some,
        a.year is Some ==> row.release_date->0@ == text::decimal_int(a.year->0 as int),
        row.track_count == a.song_count,
        row.added_at == a.created,
        row.artwork_width is None,
        row.artwork_height is None,
{
}

/// Seconds as milliseconds, no more than fit.
pub open spec fn millis(seconds: u64) -> u64 {
    if seconds * 1000 > u64::MAX {
        u64::MAX
    } else {
        (seconds * 1000) as u64
    }
}

/// Whether a row is what a song of the wire becomes.
pub open spec fn is_song_row(s: WireSong, album_id: Seq<char>, row: SongUpsert) -> bool {
    &&& row.id == s.id
    &&& row.catalog_id is None
    &&& row.name == s.title
    &&& row.artist_name == s.artist
    &&& row.album_name == s.album
    &&& text::view_of(row.album_id) == Some(album_id)
    &&& row.duration_ms == (match s.duration {
        Some(d) => millis(d),
        None => 0u64,
    })
    &&& text::view_of(row.artwork_url) == stored_cover(s.cover_art)
    &&& row.track_number == s.track
    &&& row.disc_number == s.disc_number
    &&& row.added_at == s.created
    &&& row.artwork_width is None
    &&& row.artwork_height is None
}

/// The row of a song on an album.
pub fn song_from(s: WireSong, album_id: &str) -> (r: SongUpsert)
    ensures
        is_song_row(s, album_id@, r),
        r.id == s.id,
        r.catalog_id is None,
        r.name == s.title,
        r.artist_name == s.artist,
        r.album_name == s.album,
        r.album_id is Some,
        r.album_id->0@ == album_id@,
        s.duration is None ==> r.duration_ms == 0,
        s.duration is Some && s.duration->0 * 1000 <= u64::MAX ==> r.duration_ms == s.duration->0
            * 1000,
        s.duration is Some && s.duration->0 * 1000 > u64::MAX ==> r.duration_ms == u64::MAX,
        is_cover_of(r.artwork_url, s.cover_art),
        r.track_number == s.track,
        r.disc_number == s.disc_number,
        r.added_at == s.created,
        r.artwork_width is None,
        r.artwork_height is None,
{
    let duration_ms: u64 = match s.duration {
        Some(d) => match d.checked_mul(1000) {
            Some(ms) => ms,
            None => u64::MAX,
        },
        None => 0,
    };
    SongUpsert {
        id: s.id,
        catalog_id: None,
        name: s.title,
        artist_name: s.artist,
        album_name: s.album,
        album_id: Some(album_id.to_string()),
        duration_ms,
        artwork_url: cover_art_ref(s.cover_art),
        track_number: s.track,
        disc_number: s.disc_number,
        added_at: s.created,
        artwork_width: None,
        artwork_height: None,
    }
}

/// A song row says what the server sent, field by field: whom the song is by, what
/// it is on, and where.
pub proof fn lemma_song_row_fields(s: WireSong, album_id: Seq<char>, row: SongUpsert)
    requires
        is_song_row(s, album_id, row),
    ensures
        row.id == s.id,
        row.catalog_id is None,
        row.name == s.title,
        row.artist_name == s.artist,
        row.album_name == s.album,
        row.album_id is Some,
        row.album_id->0@ == album_id,
        s.duration is None ==> row.duration_ms == 0,
        s.duration is Some && s.duration->0 * 1000 <= u64::MAX ==> row.duration_ms == s.duration->0
            * 1000,
        s.duration is Some && s.duration->0 * 1000 > u64::MAX ==> row.duration_ms == u64::MAX,
        is_cover_of(row.artwork_url, s.cover_art),
        row.track_number == s.track,
        row.disc_number == s.disc_number,
        row.added_at == s.created,
        row.artwork_width is None,
        row.artwork_height is None,
{
}

/// Whether a row is what a playlist of the wire becomes. A blank comment is none.
pub open spec fn is_playlist_row(p: WirePlaylist, row: PlaylistUpsert) -> bool {
    &&& row.id == p.id
    &&& row.name == p.name
    &&& row.description == (if p.comment is Some && !text::blank(p.comment->0@) {
        p.comment
    } else {
        None
    })
    &&& text::view_of(row.artwork_url) == stored_cover(p.cover_art)
    &&& !row.can_edit
    &&& row.artwork_width is None
    &&& row.artwork_height is None
}

/// The row of a playlist.
pub fn playlist_from(p: WirePlaylist) -> (r: PlaylistUpsert)
    ensures
        is_playlist_row(p, r),
        r.id == p.id,
        r.name == p.name,
        p.comment is Some && !text::blank(p.comment->0@) ==> r.description == p.comment,
        p.comment is None || text::blank(p.comment->0@) ==> r.description is None,
        is_cover_of(r.artwork_url, p.cover_art),
        !r.can_edit,
        r.artwork_width is None,
        r.artwork_height is None,
{
    let description = match p.comment {
        Some(c) => if text::is_blank(c.as_str()) {
            None
        } else {
            Some(c)
        },
        None => None,
    };
    PlaylistUpsert {
        id: p.id,
        name: p.name,
        description,
        artwork_url: cover_art_ref(p.cover_art),
        can_edit: false,
        artwork_width: None,
        artwork_height: None,
    }
}

/// A playlist row says what the server sent, field by field.
pub proof fn lemma_playlist_row_fields(p: WirePlaylist, row: PlaylistUpsert)
    requires
        is_playlist_row(p, row),
    ensures
        row.id == p.id,
        row.name == p.name,
        p.comment is Some && !text::blank(p.comment->0@) ==> row.description == p.comment,
        p.comment is None || text::blank(p.comment->0@) ==> row.description is None,
        is_cover_of(row.artwork_url, p.cover_art),
        !row.can_edit,
        row.artwork_width is None,
        row.artwork_height is None,
{
}

/// The track ids of a playlist, in playlist order.
pub fn playlist_track_ids(detail: &WirePlaylistDetail) -> (r: Vec<String>)
    ensures
        r@ == detail.entry@.map_values(|e: WirePlaylistEntry| e.id),
        r@.len() == detail.entry@.len(),
        forall|i: int| 0 <= i < r@.len() ==> #[trigger] r@[i] == detail.entry@[i].id,
{
    let mut out: Vec<String> = Vec::new();
    let ghost all = detail.entry@.map_values(|e: WirePlaylistEntry| e.id);
    let mut i: usize = 0;
    while i < detail.entry.len()
        invariant
            all == detail.entry@.map_values(|e: WirePlaylistEntry| e.id),
            i <= detail.entry@.len(),
            out@ == all.take(i as int),
        decreases detail.entry@.len() - i,
    {
        out.push(detail.entry[i].id.clone());
        assert(all.take(i + 1) =~= all.take(i as int).push(all[i as int]));
        i += 1;
    }
    assert(all.take(i as int) =~= all);
    out
}

// ── the client ─────────────────────────────────────────────────────────

#[derive(Debug, PartialEq, Eq)]
pub struct Credentials {
    pub base_url: String,
    pub username: String,
    pub password: String,
}

impl Clone for Credentials {
    fn clone(&self) -> (r: Self)
        ensures
            r == *self,
    {
        Credentials {
            base_url: self.base_url.clone(),
            username: self.username.clone(),
            password: self.password.clone(),
        }
    }
}

/// A server and a login for it. Builds the addresses to fetch; fetching them is
/// the caller's part.
pub struct Client {
    creds: Credentials,
    pid: u32,
}

/// One parameter as it stands in a query.
pub open spec fn query_part(p: (Seq<char>, Seq<char>)) -> Seq<char> {
    p.0 + "="@ + outside::percent_encoded(encode_utf8(p.1))
}

/// Parameters as they stand in a query.
pub open spec fn query_parts(params: Seq<(Seq<char>, Seq<char>)>) -> Seq<Seq<char>> {
    params.map_values(|p: (Seq<char>, Seq<char>)| query_part(p))
}

/// The address of one call. The password is not among what it is made of.
pub open spec fn signed(
    base_url: Seq<char>,
    method: Seq<char>,
    user: Seq<char>,
    token: Seq<char>,
    salt: Seq<char>,
    extra: Seq<(Seq<char>, Seq<char>)>,
) -> Seq<char> {
    base_url + "/rest/"@ + method + ".view?"@ + text::joined(
        query_parts(auth_params(user, token, salt) + extra),
        "&"@,
    )
}

/// What the address of a call holds, letter by letter: the method behind `/rest/`,
/// then the login, then whatever else is asked.
pub proof fn lemma_signed_address(
    base_url: Seq<char>,
    method: Seq<char>,
    user: Seq<char>,
    token: Seq<char>,
    salt: Seq<char>,
    extra: Seq<(Seq<char>, Seq<char>)>,
)
    ensures
        extra.len() == 0 ==> signed(base_url, method, user, token, salt, extra) == base_url
            + "/rest/"@ + method + ".view?"@ + (("u"@ + "="@ + outside::percent_encoded(
            encode_utf8(user),
        )) + "&"@ + ("t"@ + "="@ + outside::percent_encoded(encode_utf8(token))) + "&"@ + ("s"@
            + "="@ + outside::percent_encoded(encode_utf8(salt))) + "&"@ + ("v"@ + "="@
            + outside::percent_encoded(encode_utf8("1.16.1"@))) + "&"@ + ("c"@ + "="@
            + outside::percent_encoded(encode_utf8("capsule"@))) + "&"@ + ("f"@ + "="@
            + outside::percent_encoded(encode_utf8("json"@)))),
        extra.len() > 0 ==> signed(base_url, method, user, token, salt, extra) == signed(
            base_url,
            method,
            user,
            token,
            salt,
            extra.drop_last(),
        ) + ("&"@ + (extra.last().0 + "="@ + outside::percent_encoded(
            encode_utf8(extra.last().1),
        ))),
{
    let auth = auth_params(user, token, salt);
    let all = auth + extra;
    let head = base_url + "/rest/"@ + method + ".view?"@;
    if extra.len() == 0 {
        assert(all =~= auth);
        lemma_joined_six(query_parts(auth), "&"@);
    } else {
        let front = auth + extra.drop_last();
        let part = extra.last().0 + "="@ + outside::percent_encoded(encode_utf8(extra.last().1));
        assert(query_parts(all).drop_last() =~= query_parts(front));
        assert(query_parts(all).last() == part);
        let j = text::joined(query_parts(front), "&"@);
        assert(head + (j + "&"@ + part) =~= head + j + ("&"@ + part));
    }
}

proof fn lemma_joined_six(q: Seq<Seq<char>>, sep: Seq<char>)
    requires
        q.len() == 6,
    ensures
        text::joined(q, sep) == q[0] + sep + q[1] + sep + q[2] + sep + q[3] + sep + q[4] + sep + q[5],
{
    reveal_with_fuel(text::joined, 7);
}

/// `name=value` with the value percent-encoded.
fn encode_pair(name: &str, value: &str) -> (r: String)
    ensures
        r@ == query_part((name@, value@)),
{
    let mut out = name.to_string();
    out.append("=");
    let encoded = outside::url_encode(value);
    out.append(encoded.as_str());
    out
}

impl Client {
    /// The address the client talks to.
    pub closed spec fn base(&self) -> Seq<char> {
        self.creds.base_url@
    }

    /// Whom the client logs in as.
    pub closed spec fn user(&self) -> Seq<char> {
        self.creds.username@
    }

    /// What the client's digests are made from.
    pub closed spec fn password(&self) -> Seq<char> {
        self.creds.password@
    }

    /// The process whose number goes into the salts.
    pub closed spec fn process(&self) -> nat {
        self.pid as nat
    }

    /// A client for a login; refused if the address is blank. `pid` is the
    /// number of the running process.
    pub fn new(creds: Credentials, pid: u32) -> (r: Result<Self, SubsonicError>)
        ensures
            match r {
                Ok(c) => {
                    &&& !text::blank(creds.base_url@)
                    &&& c.base() == base_url_of(creds.base_url@)
                    &&& c.user() == creds.username@
                    &&& c.password() == creds.password@
                    &&& c.process() == pid
                },
                Err(e) => text::blank(creds.base_url@) && e is InvalidUrl && e->InvalidUrl_0@
                    == "empty"@,
            },
    {
        match normalize_base_url(creds.base_url.as_str()) {
            Ok(base_url) => Ok(
                Client {
                    creds: Credentials {
                        base_url,
                        username: creds.username,
                        password: creds.password,
                    },
                    pid,
                },
            ),
            Err(e) => Err(e),
        }
    }

    /// The address the client talks to.
    pub fn base_url(&self) -> (r: &str)
        ensures
            r@ == self.base(),
    {
        self.creds.base_url.as_str()
    }

    /// A second handle for artwork fetching.
    pub fn clone_for_artwork(&self) -> (r: Self)
        ensures
            r.base() == self.base(),
            r.user() == self.user(),
            r.password() == self.password(),
            r.process() == self.process(),
    {
        Client { creds: self.creds.clone(), pid: self.pid }
    }

    /// The address of a call under a given salt.
    pub fn signed_url_with(&self, method: &str, extra: &Vec<(String, String)>, salt: &str) -> (r:
        String)
        ensures
            r@ == signed(
                self.base(),
                method@,
                self.user(),
                token_of(self.password(), salt@),
                salt@,
                outside::pair_views(extra@),
            ),
    {
        let params = auth_query(self.creds.username.as_str(), self.creds.password.as_str(), salt);
        let ghost fixed = auth_params(
            self.user(),
            token_of(self.password(), salt@),
            salt@,
        );
        let mut parts: Vec<String> = Vec::new();
        let mut i: usize = 0;
        while i < params.len()
            invariant
                i <= params@.len(),
                text::views(parts@) == query_parts(outside::pair_views(params@).take(i as int)),
            decreases params@.len() - i,
        {
            let ghost pairs = outside::pair_views(params@);
            parts.push(encode_pair(params[i].0.as_str(), params[i].1.as_str()));
            assert(query_parts(pairs.take(i + 1)) =~= query_parts(pairs.take(i as int)).push(
                query_part(pairs[i as int]),
            ));
            assert(text::views(parts@) =~= query_parts(pairs.take(i + 1)));
            i += 1;
        }
        assert(outside::pair_views(params@).take(i as int) =~= fixed);
        let mut j: usize = 0;
        assert(outside::pair_views(extra@).take(0) =~= Seq::empty());
        assert(fixed + Seq::<(Seq<char>, Seq<char>)>::empty() =~= fixed);
        while j < extra.len()
            invariant
                j <= extra@.len(),
                text::views(parts@) == query_parts(
                    fixed + outside::pair_views(extra@).take(j as int),
                ),
            decreases extra@.len() - j,
        {
            let ghost pairs = outside::pair_views(extra@);
            parts.push(encode_pair(extra[j].0.as_str(), extra[j].1.as_str()));
            assert(fixed + pairs.take(j + 1) =~= (fixed + pairs.take(j as int)).push(
                pairs[j as int],
            ));
            assert(query_parts(fixed + pairs.take(j + 1)) =~= query_parts(
                fixed + pairs.take(j as int),
            ).push(query_part(pairs[j as int])));
            assert(text::views(parts@) =~= query_parts(fixed + pairs.take(j + 1)));
            j += 1;
        }
        assert(outside::pair_views(extra@).take(j as int) =~= outside::pair_views(extra@));
        let query = text::join(&parts, "&");
        let mut out = self.creds.base_url.clone();
        out.append("/rest/");
        out.append(method);
        out.append(".view?");
        out.append(query.as_str());
        out
    }

    /// The address of a call, signed with a fresh salt.
    pub fn signed_url(&self, method: &str, extra: &Vec<(String, String)>) -> (r: String)
        ensures
            exists|nanos: nat|
                r@ == signed(
                    self.base(),
                    method@,
                    self.user(),
                    token_of(self.password(), #[trigger] salt_of(nanos, self.process())),
                    salt_of(nanos, self.process()),
                    outside::pair_views(extra@),
                ),
    {
        let salt = random_salt(self.pid);
        let ghost nanos = choose|nanos: nat| salt@ == #[trigger] salt_of(nanos, self.pid as nat);
        assert(salt@ == salt_of(nanos, self.process()));
        self.signed_url_with(method, extra, salt.as_str())
    }

    /// Where a track streams from.
    pub fn stream_url(&self, id: &str) -> (r: String)
        ensures
            exists|nanos: nat|
                r@ == signed(
                    self.base(),
                    "stream"@,
                    self.user(),
                    token_of(self.password(), #[trigger] salt_of(nanos, self.process())),
                    salt_of(nanos, self.process()),
                    seq![("id"@, id@)],
                ),
    {
        let extra = vec![("id".to_string(), id.to_string())];
        assert(outside::pair_views(extra@) =~= seq![("id"@, id@)]);
        self.signed_url("stream", &extra)
    }

    /// Where a cover of a given size comes from.
    pub fn cover_art_url(&self, id: &str, size: u32) -> (r: String)
        ensures
            exists|nanos: nat|
                r@ == signed(
                    self.base(),
                    "getCoverArt"@,
                    self.user(),
                    token_of(self.password(), #[trigger] salt_of(nanos, self.process())),
                    salt_of(nanos, self.process()),
                    seq![("id"@, id@), ("size"@, text::decimal(size as nat))],
                ),
    {
        let extra = vec![
            ("id".to_string(), id.to_string()),
            ("size".to_string(), text::show(size as u64)),
        ];
        assert(outside::pair_views(extra@) =~= seq![
            ("id"@, id@),
            ("size"@, text::decimal(size as nat)),
        ]);
        self.signed_url("getCoverArt", &extra)
    }
}

/// Two logins whose digests agree sign alike, whatever their passwords are: an
/// address tells nothing of the password beyond the digest.
pub proof fn lemma_only_the_digest_is_sent(
    a: Client,
    b: Client,
    method: Seq<char>,
    salt: Seq<char>,
    extra: Seq<(Seq<char>, Seq<char>)>,
)
    requires
        a.base() == b.base(),
        a.user() == b.user(),
        token_of(a.password(), salt) == token_of(b.password(), salt),
    ensures
        signed(a.base(), method, a.user(), token_of(a.password(), salt), salt, extra) == signed(
            b.base(),
            method,
            b.user(),
            token_of(b.password(), salt),
            salt,
            extra,
        ),
{
}

// ── replies ────────────────────────────────────────────────────────────

/// The member of a JSON text that may not be there.
pub open spec fn member_of(text: Option<Seq<char>>, key: Seq<char>) -> Option<Seq<char>> {
    match text {
        Some(t) => outside::json_get(t, key),
        None => None,
    }
}

/// The string of a JSON text that may not be there.
pub open spec fn string_of(text: Option<Seq<char>>) -> Option<Seq<char>> {
    match text {
        Some(t) => outside::json_text(t),
        None => None,
    }
}

/// The integer of a JSON text that may not be there.
pub open spec fn integer_of(text: Option<Seq<char>>) -> Option<i64> {
    match text {
        Some(t) => outside::json_int(t),
        None => None,
    }
}

fn member(text: &Option<String>, key: &str) -> (r: Option<String>)
    ensures
        text::view_of(r) == member_of(text::view_of(*text), key@),
{
    match text {
        Some(t) => outside::json_member(t.as_str(), key),
        None => None,
    }
}

fn string_in(text: &Option<String>) -> (r: Option<String>)
    ensures
        text::view_of(r) == string_of(text::view_of(*text)),
{
    match text {
        Some(t) => outside::json_str(t.as_str()),
        None => None,
    }
}

fn integer_in(text: &Option<String>) -> (r: Option<i64>)
    ensures
        r == integer_of(text::view_of(*text)),
{
    match text {
        Some(t) => outside::json_i64(t.as_str()),
        None => None,
    }
}

/// What a reply says, given what was found in it: its status, the code and the
/// message of its error, and the payload asked for.
pub open spec fn is_verdict(
    status: Option<Seq<char>>,
    code: Option<i64>,
    message: Option<Seq<char>>,
    payload: Option<Seq<char>>,
    r: Result<String, SubsonicError>,
) -> bool {
    let number = match code {
        Some(c) => c as i32,
        None => 0i32,
    };
    if status == Some("failed"@) {
        if number == 40 || number == 41 {
            r == Err::<String, SubsonicError>(SubsonicError::Unauthorized)
        } else {
            &&& r is Err
            &&& r->Err_0 is Api
            &&& r->Err_0->code == number
            &&& r->Err_0->message@ == (match message {
                Some(m) => m,
                None => "unknown error"@,
            })
        }
    } else {
        &&& r is Ok
        &&& r->Ok_0@ == (if payload is Some && payload->0 != "null"@ {
            payload->0
        } else {
            "{}"@
        })
    }
}

/// Decides what a reply says. Code 40 is a wrong username or password and 41 a
/// user for whom tokens are not supported: in both cases the credentials will
/// never work. A payload that is missing or null counts as an empty object.
pub fn envelope_verdict(
    status: Option<String>,
    code: Option<i64>,
    message: Option<String>,
    payload: Option<String>,
) -> (r: Result<String, SubsonicError>)
    ensures
        is_verdict(
            text::view_of(status),
            code,
            text::view_of(message),
            text::view_of(payload),
            r,
        ),
        status is Some && status->0@ == "failed"@ ==> {
            let number = match code {
                Some(c) => c as i32,
                None => 0i32,
            };
            &&& r is Err
            &&& r->Err_0 is Unauthorized <==> number == 40 || number == 41
            &&& number != 40 && number != 41 ==> r->Err_0 is Api && r->Err_0->code == number
            &&& number != 40 && number != 41 && message is Some ==> r->Err_0->message@
                == message->0@
            &&& number != 40 && number != 41 && message is None ==> r->Err_0->message@
                == "unknown error"@
        },
        status is None || status->0@ != "failed"@ ==> {
            &&& r is Ok
            &&& payload is Some && payload->0@ != "null"@ ==> r->Ok_0@ == payload->0@
            &&& payload is None || payload->0@ == "null"@ ==> r->Ok_0@ == "{}"@
        },
{
    let failed = match status {
        Some(s) => text::same(s.as_str(), "failed"),
        None => false,
    };
    if failed {
        let code: i32 = match code {
            Some(c) =>
                #[verifier::truncate]
                (c as i32),
            None => 0,
        };
        if code == 40 || code == 41 {
            return Err(SubsonicError::Unauthorized);
        }
        let message = match message {
            Some(m) => m,
            None => "unknown error".to_string(),
        };
        return Err(SubsonicError::Api { code, message });
    }
    match payload {
        Some(p) => {
            if text::same(p.as_str(), "null") {
                Ok("{}".to_string())
            } else {
                Ok(p)
            }
        },
        None => Ok("{}".to_string()),
    }
}

/// Whether `r` is what a reply body comes to, for the payload under `key`.
pub open spec fn is_envelope(body: Seq<char>, key: Seq<char>, r: Result<String, SubsonicError>) -> bool {
    match outside::json_fault(body) {
        Some(why) => r is Err && r->Err_0 is Malformed && r->Err_0->Malformed_0@ == why,
        None => match outside::json_get(body, "subsonic-response"@) {
            None => r is Err && r->Err_0 is Malformed && r->Err_0->Malformed_0@
                == "missing subsonic-response"@,
            Some(resp) => is_verdict(
                string_of(outside::json_get(resp, "status"@)),
                integer_of(member_of(outside::json_get(resp, "error"@), "code"@)),
                string_of(member_of(outside::json_get(resp, "error"@), "message"@)),
                if key.len() == 0 {
                    None
                } else {
                    outside::json_get(resp, key)
                },
                r,
            ),
        },
    }
}

/// Opens a reply: the JSON text of the payload object under `key`, or the error
/// the server reports. An empty key asks for no payload, as a ping does.
pub fn parse_envelope(body: &str, key: &str) -> (r: Result<String, SubsonicError>)
    ensures
        is_envelope(body@, key@, r),
        outside::json_fault(body@) is Some ==> r is Err && r->Err_0 is Malformed
            && r->Err_0->Malformed_0@ == outside::json_fault(body@)->0,
        outside::json_fault(body@) is None && outside::json_get(body@, "subsonic-response"@) is None
            ==> r is Err && r->Err_0 is Malformed && r->Err_0->Malformed_0@
            == "missing subsonic-response"@,
        outside::json_fault(body@) is None && outside::json_get(body@, "subsonic-response"@) is Some
            ==> {
            let reply = outside::json_get(body@, "subsonic-response"@)->0;
            let status = outside::json_get(reply, "status"@);
            let failed = status is Some && outside::json_text(status->0) == Some("failed"@);
            let payload = outside::json_get(reply, key@);
            &&& r is Ok <==> !failed
            &&& !failed && key@.len() > 0 && payload is Some && payload->0 != "null"@ ==> r->Ok_0@
                == payload->0
            &&& !failed && (key@.len() == 0 || payload is None || payload->0 == "null"@)
                ==> r->Ok_0@ == "{}"@
            &&& failed && outside::json_get(reply, "error"@) is None ==> r->Err_0 is Api
                && r->Err_0->code == 0 && r->Err_0->message@ == "unknown error"@
            &&& failed && outside::json_get(reply, "error"@) is Some ==> {
                let error = outside::json_get(reply, "error"@)->0;
                let code = outside::json_get(error, "code"@);
                let message = outside::json_get(error, "message"@);
                let number = if code is Some && outside::json_int(code->0) is Some {
                    outside::json_int(code->0)->0 as i32
                } else {
                    0i32
                };
                &&& number == 40 || number == 41 ==> r->Err_0 is Unauthorized
                &&& number != 40 && number != 41 ==> r->Err_0 is Api && r->Err_0->code == number
                &&& number != 40 && number != 41 && message is Some && outside::json_text(
                    message->0,
                ) is Some ==> r->Err_0->message@ == outside::json_text(message->0)->0
                &&& number != 40 && number != 41 && !(message is Some && outside::json_text(
                    message->0,
                ) is Some) ==> r->Err_0->message@ == "unknown error"@
            }
        },
{
    if let Some(why) = outside::json_check(body) {
        return Err(SubsonicError::Malformed(why));
    }
    let resp = match outside::json_member(body, "subsonic-response") {
        Some(r) => r,
        None => return Err(SubsonicError::Malformed("missing subsonic-response".to_string())),
    };
    let status = string_in(&outside::json_member(resp.as_str(), "status"));
    let error = outside::json_member(resp.as_str(), "error");
    let code = integer_in(&member(&error, "code"));
    let message = string_in(&member(&error, "message"));
    let no_key = text::same(key, "");
    proof {
        reveal_strlit("");
        if key@.len() == 0 {
            assert(key@ =~= ""@);
        }
    }
    let payload = if no_key {
        None
    } else {
        outside::json_member(resp.as_str(), key)
    };
    envelope_verdict(status, code, message, payload)
}

// ── walking the library ────────────────────────────────────────────────

/// Albums per page; the most the protocol allows.
pub const ALBUM_PAGE: u32 = 500;

/// Guards against a server that never returns a short page.
pub const MAX_ALBUM_PAGES: u32 = 500;

/// What to do after a page of albums.
#[derive(Debug, Clone, Copy, PartialEq, Eq, Structural)]
pub enum AlbumStep {
    /// Ask for the next page.
    More,
    /// That was the last page.
    Finished,
    /// The page cap is reached; the library may be cut short.
    Truncated,
}

/// A walk over the pages of the album list.
pub struct AlbumWalk {
    pub offset: u32,
    pub pages: u32,
}

impl AlbumWalk {
    /// The start of the list.
    pub fn new() -> (r: Self)
        ensures
            r.offset == 0,
            r.pages == 0,
    {
        AlbumWalk { offset: 0, pages: 0 }
    }

    /// The parameters of the next request.
    pub fn request(&self) -> (r: Vec<(String, String)>)
        ensures
            outside::pair_views(r@) == seq![
                ("type"@, "alphabeticalByName"@),
                ("size"@, text::decimal(ALBUM_PAGE as nat)),
                ("offset"@, text::decimal(self.offset as nat)),
            ],
    {
        let r = vec![
            ("type".to_string(), "alphabeticalByName".to_string()),
            ("size".to_string(), text::show(ALBUM_PAGE as u64)),
            ("offset".to_string(), text::show(self.offset as u64)),
        ];
        assert(outside::pair_views(r@) =~= seq![
            ("type"@, "alphabeticalByName"@),
            ("size"@, text::decimal(ALBUM_PAGE as nat)),
            ("offset"@, text::decimal(self.offset as nat)),
        ]);
        r
    }

    /// A page of `n` albums came. A short page is the last one.
    pub fn advance(&mut self, n: u32) -> (r: AlbumStep)
        requires
            old(self).pages < MAX_ALBUM_PAGES,
            n >= ALBUM_PAGE ==> old(self).offset + n <= u32::MAX,
        ensures
            final(self).pages == old(self).pages + 1,
            n < ALBUM_PAGE ==> r == AlbumStep::Finished && final(self).offset == old(self).offset,
            n >= ALBUM_PAGE ==> final(self).offset == old(self).offset + n && r == (if old(
                self,
            ).pages + 1 < MAX_ALBUM_PAGES {
                AlbumStep::More
            } else {
                AlbumStep::Truncated
            }),
            r == AlbumStep::Finished <==> n < 500,
            r == AlbumStep::Truncated <==> n >= 500 && old(self).pages + 1 >= 500,
    {
        self.pages = self.pages + 1;
        if n < ALBUM_PAGE {
            return AlbumStep::Finished;
        }
        self.offset = self.offset + n;
        if self.pages < MAX_ALBUM_PAGES {
            AlbumStep::More
        } else {
            AlbumStep::Truncated
        }
    }
}

/// Album fetches in flight at one time.
pub const ALBUM_CONCURRENCY: usize = 8;

/// How a walk over the songs went.
#[derive(Debug, Clone, Copy, PartialEq, Eq, Structural)]
pub struct SongSyncReport {
    pub skipped_albums: u32,
}

impl Default for SongSyncReport {
    fn default() -> (r: Self)
        ensures
            r.skipped_albums == 0,
    {
        SongSyncReport { skipped_albums: 0 }
    }
}

/// How one album fetch ended.
#[derive(Debug, PartialEq, Eq)]
pub enum AlbumOutcome {
    Fetched { album_id: String, songs: Vec<WireSong> },
    Unauthorized,
    Failed,
}

/// What to do once an album fetch has ended.
#[derive(Debug, PartialEq, Eq)]
pub enum SongStep {
    /// Hand these rows on if there are any, and start this fetch if there is one.
    Continue { rows: Vec<SongUpsert>, start: Option<String> },
    /// Give up: the credentials are rejected, and asking once per album helps
    /// nobody.
    Abort,
}

/// A walk over the songs, album by album, with a few fetches in flight.
pub struct SongWalk {
    ids: Vec<String>,
    next: usize,
    in_flight: usize,
    report: SongSyncReport,
}

impl SongWalk {
    /// The albums to visit.
    pub closed spec fn albums(&self) -> Seq<String> {
        self.ids@
    }

    /// How many fetches have been started.
    pub closed spec fn started(&self) -> nat {
        self.next as nat
    }

    /// How many fetches are out.
    pub closed spec fn flying(&self) -> nat {
        self.in_flight as nat
    }

    /// How many albums were skipped.
    pub closed spec fn skipped(&self) -> nat {
        self.report.skipped_albums as nat
    }

    /// Never more fetches out than allowed, none started twice, and fewer out
    /// than allowed only once every album has been started on.
    pub open spec fn wf(&self) -> bool {
        &&& self.albums().len() <= u32::MAX
        &&& self.started() <= self.albums().len()
        &&& self.flying() <= ALBUM_CONCURRENCY
        &&& self.flying() + self.skipped() <= self.started()
        &&& self.flying() < ALBUM_CONCURRENCY ==> self.started() == self.albums().len()
    }

    /// Whether this is the beginning of a walk that starts these fetches at once.
    pub open spec fn begins(self, ids: Seq<String>, first: Seq<String>) -> bool {
        &&& self.wf()
        &&& self.albums() == ids
        &&& self.skipped() == 0
        &&& self.flying() == self.started()
        &&& self.started() == (if ids.len() < ALBUM_CONCURRENCY {
            ids.len()
        } else {
            ALBUM_CONCURRENCY as nat
        })
        &&& first == ids.take(self.started() as int)
    }

    /// Whether a fetch that ended so leads to this step and to `after`. An album
    /// that failed is skipped; a rejected login ends the walk.
    pub open spec fn goes_on(self, outcome: AlbumOutcome, step: SongStep, after: SongWalk) -> bool {
        &&& after.albums() == self.albums()
        &&& if outcome is Unauthorized {
            &&& step == SongStep::Abort
            &&& after.started() == self.started()
            &&& after.skipped() == self.skipped()
            &&& after.flying() == self.flying() - 1
        } else {
            &&& after.wf()
            &&& after.skipped() == self.skipped() + (if outcome is Failed {
                1int
            } else {
                0
            })
            &&& step is Continue
            &&& match outcome {
                AlbumOutcome::Fetched { album_id, songs } => {
                    &&& step->rows@.len() == songs@.len()
                    &&& forall|i: int|
                        0 <= i < songs@.len() ==> is_song_row(
                            songs@[i],
                            album_id@,
                            #[trigger] step->rows@[i],
                        )
                },
                _ => step->rows@.len() == 0,
            }
            &&& if self.started() < self.albums().len() {
                &&& step->start == Some(self.albums()[self.started() as int])
                &&& after.started() == self.started() + 1
                &&& after.flying() == self.flying()
            } else {
                &&& step->start is None
                &&& after.started() == self.started()
                &&& after.flying() == self.flying() - 1
            }
        }
    }

    /// Begins a walk, with the fetches to start at once.
    pub fn begin(ids: Vec<String>) -> (r: (Self, Vec<String>))
        requires
            ids@.len() <= u32::MAX,
        ensures
            r.0.begins(ids@, r.1@),
            ids@.len() <= 8 ==> r.1@ == ids@,
            ids@.len() > 8 ==> r.1@ == ids@.take(8),
            r.0.albums() == ids@,
            r.0.skipped() == 0,
            r.0.flying() == r.1@.len(),
    {
        let mut first: Vec<String> = Vec::new();
        let mut i: usize = 0;
        while i < ALBUM_CONCURRENCY && i < ids.len()
            invariant
                i <= ids@.len(),
                i <= ALBUM_CONCURRENCY,
                first@ == ids@.take(i as int),
            decreases ids@.len() - i,
        {
            first.push(ids[i].clone());
            assert(ids@.take(i + 1) =~= ids@.take(i as int).push(ids@[i as int]));
            i += 1;
        }
        (SongWalk { ids, next: i, in_flight: i, report: SongSyncReport::default() }, first)
    }

    /// Whether every fetch has come back.
    pub fn is_done(&self) -> (r: bool)
        ensures
            r == (self.flying() == 0),
    {
        self.in_flight == 0
    }

    /// How the walk went so far.
    pub fn report(&self) -> (r: SongSyncReport)
        ensures
            r.skipped_albums == self.skipped(),
    {
        self.report
    }

    /// A fetch ended. An album that failed is skipped rather than ending the
    /// walk; a rejected login ends it.
    pub fn on_album(&mut self, outcome: AlbumOutcome) -> (r: SongStep)
        requires
            old(self).wf(),
            old(self).flying() > 0,
        ensures
            old(self).goes_on(outcome, r, *final(self)),
            outcome is Fetched ==> {
                let songs = outcome->songs@;
                &&& r is Continue
                &&& r->rows@.len() == songs.len()
                &&& forall|i: int|
                    0 <= i < songs.len() ==> (#[trigger] r->rows@[i]).id == songs[i].id
                        && r->rows@[i].name == songs[i].title && r->rows@[i].artist_name
                        == songs[i].artist && r->rows@[i].album_name == songs[i].album
                        && r->rows@[i].album_id is Some && r->rows@[i].album_id->0@
                        == outcome->album_id@
            },
    {
        self.in_flight = self.in_flight - 1;
        let mut rows: Vec<SongUpsert> = Vec::new();
        match outcome {
            AlbumOutcome::Unauthorized => {
                return SongStep::Abort;
            },
            AlbumOutcome::Failed => {
                self.report = SongSyncReport {
                    skipped_albums: self.report.skipped_albums + 1,
                };
            },
            AlbumOutcome::Fetched { album_id, songs } => {
                rows = song_rows(songs, album_id.as_str());
            },
        }
        let start = if self.next < self.ids.len() {
            let id = self.ids[self.next].clone();
            self.next = self.next + 1;
            self.in_flight = self.in_flight + 1;
            Some(id)
        } else {
            None
        };
        SongStep::Continue { rows, start }
    }
}

/// The rows of an album's songs, in order.
pub fn song_rows(songs: Vec<WireSong>, album_id: &str) -> (r: Vec<SongUpsert>)
    ensures
        r@.len() == songs@.len(),
        forall|i: int|
            0 <= i < r@.len() ==> is_song_row(songs@[i], album_id@, #[trigger] r@[i]),
        forall|i: int|
            0 <= i < r@.len() ==> (#[trigger] r@[i]).id == songs@[i].id && r@[i].name
                == songs@[i].title && r@[i].artist_name == songs@[i].artist && r@[i].album_name
                == songs@[i].album && r@[i].album_id is Some && r@[i].album_id->0@ == album_id@,
{
    let mut out: Vec<SongUpsert> = Vec::new();
    for s in it: songs
        invariant
            it.seq() == songs@,
            out@.len() == it.index(),
            forall|i: int|
                0 <= i < out@.len() ==> is_song_row(songs@[i], album_id@, #[trigger] out@[i]),
    {
        out.push(song_from(s, album_id));
    }
    out
}

/// The fetches that a walk has started: those at once, and then one with each
/// step that names one.
pub open spec fn asked(first: Seq<String>, steps: Seq<SongStep>) -> Seq<String>
    decreases steps.len(),
{
    if steps.len() == 0 {
        first
    } else {
        let before = asked(first, steps.drop_last());
        if steps.last() is Continue && steps.last()->start is Some {
            before.push(steps.last()->start->0)
        } else {
            before
        }
    }
}

/// How many fetches failed.
pub open spec fn failures(outcomes: Seq<AlbumOutcome>) -> nat
    decreases outcomes.len(),
{
    if outcomes.len() == 0 {
        0
    } else {
        failures(outcomes.drop_last()) + (if outcomes.last() is Failed {
            1nat
        } else {
            0nat
        })
    }
}

/// A walk over these albums: `states[i]` hears of outcome `i` while a fetch is out,
/// and no login is rejected.
pub open spec fn is_song_walk(
    ids: Seq<String>,
    first: Seq<String>,
    states: Seq<SongWalk>,
    outcomes: Seq<AlbumOutcome>,
    steps: Seq<SongStep>,
) -> bool {
    &&& states.len() == outcomes.len() + 1
    &&& steps.len() == outcomes.len()
    &&& states[0].begins(ids, first)
    &&& forall|i: int|
        0 <= i < outcomes.len() ==> states[i].flying() > 0 && !(#[trigger] outcomes[i] is Unauthorized)
            && states[i].goes_on(outcomes[i], steps[i], states[i + 1])
}

/// Where a walk stands: the albums asked for are the first of all, in order and
/// each once, every fetch that is not out has been heard of, and what was skipped
/// is what failed.
pub proof fn lemma_walk_so_far(
    ids: Seq<String>,
    first: Seq<String>,
    states: Seq<SongWalk>,
    outcomes: Seq<AlbumOutcome>,
    steps: Seq<SongStep>,
    i: int,
)
    requires
        is_song_walk(ids, first, states, outcomes, steps),
        0 <= i <= outcomes.len(),
    ensures
        states[i].wf(),
        states[i].albums() == ids,
        asked(first, steps.take(i)) == ids.take(states[i].started() as int),
        states[i].started() == states[i].flying() + i,
        states[i].skipped() == failures(outcomes.take(i)),
    decreases i,
{
    if i == 0 {
        assert(steps.take(0) =~= Seq::empty());
        assert(outcomes.take(0) =~= Seq::empty());
    } else {
        lemma_walk_so_far(ids, first, states, outcomes, steps, i - 1);
        let was = states[i - 1];
        assert(was.goes_on(outcomes[i - 1], steps[i - 1], states[i - 1 + 1]));
        assert(steps.take(i).drop_last() =~= steps.take(i - 1));
        assert(outcomes.take(i).drop_last() =~= outcomes.take(i - 1));
        assert(steps.take(i).last() == steps[i - 1]);
        if was.started() < ids.len() {
            assert(ids.take(was.started() as int + 1) =~= ids.take(was.started() as int).push(
                ids[was.started() as int],
            ));
        }
    }
}

/// A walk that is done has asked for every album once, in order, has heard of each,
/// and its report counts exactly the failures.
pub proof fn lemma_walk_visits_every_album_once(
    ids: Seq<String>,
    first: Seq<String>,
    states: Seq<SongWalk>,
    outcomes: Seq<AlbumOutcome>,
    steps: Seq<SongStep>,
)
    requires
        is_song_walk(ids, first, states, outcomes, steps),
        states.last().flying() == 0,
    ensures
        asked(first, steps) == ids,
        outcomes.len() == ids.len(),
        states.last().skipped() == failures(outcomes),
{
    let n = outcomes.len() as int;
    lemma_walk_so_far(ids, first, states, outcomes, steps, n);
    lemma_done_means_all_started(&states.last());
    assert(steps.take(n) =~= steps);
    assert(outcomes.take(n) =~= outcomes);
    assert(ids.take(ids.len() as int) =~= ids);
}

/// A walk that is done has asked for every album.
pub proof fn lemma_done_means_all_started(w: &SongWalk)
    requires
        w.wf(),
        w.flying() == 0,
    ensures
        w.started() == w.albums().len(),
{
}

} // verus!
