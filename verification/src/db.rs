//! The rows of the local library mirror, and what is decided about them before
//! they go in and after they come out.
//!
//! A library item carries two ids: its own, and the catalog id that playback
//! needs. Both are kept, and the catalog id is what the player queues.

use vstd::prelude::*;
use crate::outside;
use crate::settings::Source;
use crate::text;

verus! {

/// Why the library database could not be used.
#[derive(Debug)]
pub enum DbError {
    Sqlite(String),
    NoDataDir,
    Io(String),
}

impl DbError {
    /// The message shown for this error.
    pub open spec fn text(self) -> Seq<char> {
        match self {
            DbError::Sqlite(e) => "sqlite: "@ + e@,
            DbError::NoDataDir => "could not resolve a data directory"@,
            DbError::Io(e) => "io: "@ + e@,
        }
    }

    /// The message shown for this error.
    pub fn message(&self) -> (r: String)
        ensures
            r@ == self.text(),
            r@ == (match *self {
                DbError::Sqlite(e) => "sqlite: "@ + e@,
                DbError::NoDataDir => "could not resolve a data directory"@,
                DbError::Io(e) => "io: "@ + e@,
            }),
    {
        match self {
            DbError::Sqlite(e) => text::concat("sqlite: ", e.as_str()),
            DbError::NoDataDir => "could not resolve a data directory".to_string(),
            DbError::Io(e) => text::concat("io: ", e.as_str()),
        }
    }
}

/// The fields a lyrics lookup matches on.
#[derive(Debug, Clone, PartialEq, Eq)]
pub struct SongLookup {
    pub name: String,
    pub artist_name: String,
    pub album_name: String,
    pub duration_ms: u64,
}

/// The artwork service tops out here for album art.
pub const MAX_ARTWORK: u32 = 3000;

/// A template plus the largest size it can actually produce.
#[derive(Debug, Clone, PartialEq, Eq)]
pub struct Artwork {
    pub template: String,
    /// `None` when no dimensions were reported.
    pub max_side: Option<u32>,
}

impl Artwork {
    /// The image's own maximum, no larger than the service's.
    pub open spec fn best(self) -> u32 {
        match self.max_side {
            Some(n) => if n < MAX_ARTWORK {
                n
            } else {
                MAX_ARTWORK
            },
            None => MAX_ARTWORK,
        }
    }

    /// The biggest sensible request. Asking beyond the source only yields an
    /// upscale.
    pub fn best_size(&self) -> (r: u32)
        ensures
            r == self.best(),
            r <= MAX_ARTWORK,
            self.max_side is Some && self.max_side->0 < 3000 ==> r == self.max_side->0,
            self.max_side is None || self.max_side->0 >= 3000 ==> r == 3000,
    {
        match self.max_side {
            Some(n) => if n < MAX_ARTWORK {
                n
            } else {
                MAX_ARTWORK
            },
            None => MAX_ARTWORK,
        }
    }

    /// Never request more than the image has.
    pub fn clamp(&self, requested: u32) -> (r: u32)
        ensures
            r == (if requested < self.best() {
                requested
            } else {
                self.best()
            }),
            r <= requested,
            self.max_side matches Some(n) ==> r <= n,
    {
        let best: u32 = self.best_size();
        if requested < best {
            requested
        } else {
            best
        }
    }
}

/// A side length as stored: known only if it is positive.
pub open spec fn known_side(side: i64) -> Option<u32> {
    if side > 0 {
        Some(side as u32)
    } else {
        None
    }
}

/// Artwork as the aggregate query reports it: the longer side, or zero.
pub fn artwork_with_side(template: String, side: i64) -> (r: Artwork)
    ensures
        r.template == template,
        r.max_side == known_side(side),
        side > 0 ==> r.max_side == Some(side as u32),
        side <= 0 ==> r.max_side is None,
{
    let max_side: Option<u32> = if side > 0 {
        Some(
            #[verifier::truncate]
            (side as u32),
        )
    } else {
        None
    };
    Artwork { template, max_side }
}

/// The longer of two sides, either of which may not be known.
pub open spec fn longer_side(w: Option<i64>, h: Option<i64>) -> i64 {
    let a = if w is Some {
        w->0
    } else {
        0i64
    };
    let b = if h is Some {
        h->0
    } else {
        0i64
    };
    if a < b {
        b
    } else {
        a
    }
}

/// The size that is held of a cover is its longer side; what is not known, or not
/// above zero, is none.
pub proof fn lemma_longer_side(w: i64, h: i64)
    ensures
        longer_side(Some(w), Some(h)) >= w,
        longer_side(Some(w), Some(h)) >= h,
        longer_side(Some(w), Some(h)) == w || longer_side(Some(w), Some(h)) == h,
        longer_side(None, None) == 0,
        w >= 0 ==> longer_side(Some(w), None) == w,
        h >= 0 ==> longer_side(None, Some(h)) == h,
        w > 0 ==> known_side(w) == Some(w as u32),
        w <= 0 ==> known_side(w) is None,
{
}

/// The artwork of one row: none without a template, and the longer side where
/// the dimensions are known.
pub fn artwork_from_row(url: Option<String>, width: Option<i64>, height: Option<i64>) -> (r: Option<
    Artwork,
>)
    ensures
        match r {
            Some(a) => url matches Some(u) && u@.len() > 0 && a.template == u && a.max_side
                == known_side(longer_side(width, height)),
            None => url is None || url->0@.len() == 0,
        },
{
    match url {
        Some(u) => {
            if text::same(u.as_str(), "") {
                proof {
                    reveal_strlit("");
                }
                return None;
            }
            let w: i64 = match width {
                Some(n) => n,
                None => 0,
            };
            let h: i64 = match height {
                Some(n) => n,
                None => 0,
            };
            let side: i64 = if w < h {
                h
            } else {
                w
            };
            proof {
                reveal_strlit("");
                if u@.len() == 0 {
                    assert(u@ =~= ""@);
                }
            }
            Some(artwork_with_side(u, side))
        },
        None => None,
    }
}

/// Anything the interface lists as a song.
#[derive(Debug, Clone, PartialEq, Eq)]
pub struct SongRow {
    pub id: String,
    pub catalog_id: Option<String>,
    pub name: String,
    pub artist_name: String,
    pub album_name: String,
    pub duration_ms: u64,
    pub artwork_url: Option<String>,
}

#[derive(Debug, Clone, PartialEq, Eq)]
pub struct AlbumRow {
    pub id: String,
    pub name: String,
    pub artist_name: String,
    pub artwork_url: Option<String>,
    pub track_count: u32,
}

#[derive(Debug, Clone, PartialEq, Eq)]
pub struct PlaylistRow {
    pub id: String,
    pub name: String,
    pub artwork_url: Option<String>,
}

#[derive(Debug, Clone, Copy, PartialEq, Eq, Structural)]
pub struct LibraryCounts {
    pub songs: u32,
    pub albums: u32,
    pub playlists: u32,
    pub artists: u32,
}

impl Default for LibraryCounts {
    fn default() -> (r: Self)
        ensures
            r == (LibraryCounts { songs: 0, albums: 0, playlists: 0, artists: 0 }),
    {
        LibraryCounts { songs: 0, albums: 0, playlists: 0, artists: 0 }
    }
}

#[derive(Debug, Clone, PartialEq, Eq)]
pub struct SongUpsert {
    pub id: String,
    pub catalog_id: Option<String>,
    pub name: String,
    pub artist_name: String,
    pub album_name: String,
    pub album_id: Option<String>,
    pub duration_ms: u64,
    pub artwork_url: Option<String>,
    pub track_number: Option<i64>,
    pub disc_number: Option<i64>,
    pub added_at: Option<String>,
    pub artwork_width: Option<i64>,
    pub artwork_height: Option<i64>,
}

impl Default for SongUpsert {
    fn default() -> (r: Self)
        ensures
            r.id@.len() == 0 && r.name@.len() == 0 && r.artist_name@.len() == 0
                && r.album_name@.len() == 0,
            r.catalog_id is None && r.album_id is None && r.artwork_url is None && r.added_at
                is None,
            r.duration_ms == 0 && r.track_number is None && r.disc_number is None,
            r.artwork_width is None && r.artwork_height is None,
    {
        SongUpsert {
            id: String::new(),
            catalog_id: None,
            name: String::new(),
            artist_name: String::new(),
            album_name: String::new(),
            album_id: None,
            duration_ms: 0,
            artwork_url: None,
            track_number: None,
            disc_number: None,
            added_at: None,
            artwork_width: None,
            artwork_height: None,
        }
    }
}

#[derive(Debug, Clone, PartialEq, Eq)]
pub struct AlbumUpsert {
    pub id: String,
    pub catalog_id: Option<String>,
    pub name: String,
    pub artist_name: String,
    pub artwork_url: Option<String>,
    pub release_date: Option<String>,
    pub track_count: u32,
    pub added_at: Option<String>,
    pub artwork_width: Option<i64>,
    pub artwork_height: Option<i64>,
}

impl Default for AlbumUpsert {
    fn default() -> (r: Self)
        ensures
            r.id@.len() == 0 && r.name@.len() == 0 && r.artist_name@.len() == 0,
            r.catalog_id is None && r.artwork_url is None && r.release_date is None && r.added_at
                is None,
            r.track_count == 0 && r.artwork_width is None && r.artwork_height is None,
    {
        AlbumUpsert {
            id: String::new(),
            catalog_id: None,
            name: String::new(),
            artist_name: String::new(),
            artwork_url: None,
            release_date: None,
            track_count: 0,
            added_at: None,
            artwork_width: None,
            artwork_height: None,
        }
    }
}

#[derive(Debug, Clone, PartialEq, Eq)]
pub struct ArtistUpsert {
    pub id: String,
    pub name: String,
    pub artwork_url: Option<String>,
}

impl Default for ArtistUpsert {
    fn default() -> (r: Self)
        ensures
            r.id@.len() == 0 && r.name@.len() == 0 && r.artwork_url is None,
    {
        ArtistUpsert { id: String::new(), name: String::new(), artwork_url: None }
    }
}

#[derive(Debug, Clone, PartialEq, Eq)]
pub struct PlaylistUpsert {
    pub id: String,
    pub name: String,
    pub description: Option<String>,
    pub artwork_url: Option<String>,
    pub can_edit: bool,
    pub artwork_width: Option<i64>,
    pub artwork_height: Option<i64>,
}

impl Default for PlaylistUpsert {
    fn default() -> (r: Self)
        ensures
            r.id@.len() == 0 && r.name@.len() == 0 && r.description is None && r.artwork_url
                is None,
            !r.can_edit && r.artwork_width is None && r.artwork_height is None,
    {
        PlaylistUpsert {
            id: String::new(),
            name: String::new(),
            description: None,
            artwork_url: None,
            can_edit: false,
            artwork_width: None,
            artwork_height: None,
        }
    }
}

// ── columns ────────────────────────────────────────────────────────────

/// A duration as the database column holds it.
pub fn stored_duration(duration_ms: u64) -> (r: i64)
    ensures
        r == duration_ms as i64,
        duration_ms <= i64::MAX ==> r == duration_ms,
{
    #[verifier::truncate]
    (duration_ms as i64)
}

/// A duration as it comes back: never negative.
pub fn read_duration(stored: i64) -> (r: u64)
    ensures
        r == (if stored < 0 {
            0int
        } else {
            stored as int
        }),
{
    if stored < 0 {
        0
    } else {
        stored as u64
    }
}

/// A duration that fits the column comes back as it went in.
pub proof fn lemma_duration_round_trip(duration_ms: u64)
    requires
        duration_ms <= i64::MAX,
    ensures
        ({
            let stored = duration_ms as i64;
            (if stored < 0 {
                0int
            } else {
                stored as int
            }) == duration_ms
        }),
{
}

/// A row count as it comes back.
pub fn read_count(stored: i64) -> (r: u32)
    ensures
        r == stored as u32,
{
    #[verifier::truncate]
    (stored as u32)
}

/// The first migration still to be applied to a database at version `current`,
/// out of `count` of them; `None` when it is up to date.
pub fn first_pending(current: i64, count: usize) -> (r: Option<usize>)
    ensures
        match r {
            Some(i) => i == current && i < count,
            None => current < 0 || current >= count,
        },
{
    if current < 0 {
        return None;
    }
    let at: u64 = current as u64;
    if at < count as u64 {
        Some(at as usize)
    } else {
        None
    }
}

// ── searching ──────────────────────────────────────────────────────────

/// One character of a search, with a backslash before what LIKE would read as a
/// wildcard or as an escape.
pub open spec fn like_char(c: char) -> Seq<char> {
    if c == '\\' || c == '%' || c == '_' {
        seq!['\\', c]
    } else {
        seq![c]
    }
}

/// A search text with its wildcards escaped.
pub open spec fn like_escaped(s: Seq<char>) -> Seq<char>
    decreases s.len(),
{
    if s.len() == 0 {
        Seq::empty()
    } else {
        like_char(s[0]) + like_escaped(s.skip(1))
    }
}

/// What a LIKE pattern with backslash as its escape stands for, if it holds no
/// wildcard: the text it matches and no other.
pub open spec fn like_literal(p: Seq<char>) -> Option<Seq<char>>
    decreases p.len(),
{
    if p.len() == 0 {
        Some(Seq::empty())
    } else if p[0] == '\\' {
        if p.len() >= 2 {
            match like_literal(p.skip(2)) {
                Some(rest) => Some(seq![p[1]] + rest),
                None => None,
            }
        } else {
            None
        }
    } else if p[0] == '%' || p[0] == '_' {
        None
    } else {
        match like_literal(p.skip(1)) {
            Some(rest) => Some(seq![p[0]] + rest),
            None => None,
        }
    }
}

/// Escaping leaves no wildcard: what a search text becomes matches that text
/// and nothing else.
pub proof fn lemma_like_matches_itself_only(s: Seq<char>)
    ensures
        like_literal(like_escaped(s)) == Some(s),
    decreases s.len(),
{
    if s.len() > 0 {
        let rest = s.skip(1);
        lemma_like_matches_itself_only(rest);
        let p = like_escaped(s);
        if like_char(s[0]).len() == 2 {
            assert(p.skip(2) =~= like_escaped(rest));
        } else {
            assert(p.skip(1) =~= like_escaped(rest));
        }
        assert(seq![s[0]] + rest =~= s);
    }
}

/// The LIKE pattern for a substring search.
pub fn search_pattern(query: &str) -> (r: String)
    ensures
        r@ == seq!['%'] + like_escaped(query@) + seq!['%'],
{
    let v = text::to_chars(query);
    let mut out = String::new();
    out.push('%');
    let mut i: usize = 0;
    assert(query@.skip(0) =~= query@);
    assert(out@ =~= seq!['%']);
    while i < v.len()
        invariant
            v@ == query@,
            i <= v@.len(),
            out@ + like_escaped(query@.skip(i as int)) == seq!['%'] + like_escaped(query@),
        decreases v@.len() - i,
    {
        let c = v[i];
        let ghost rest = query@.skip(i as int);
        let ghost before = out@;
        if c == '\\' || c == '%' || c == '_' {
            out.push('\\');
        }
        out.push(c);
        assert(rest.skip(1) =~= query@.skip(i + 1));
        assert(rest[0] == c);
        assert(out@ =~= before + like_char(c));
        assert(out@ + like_escaped(query@.skip(i + 1)) =~= before + (like_char(c) + like_escaped(
            query@.skip(i + 1),
        )));
        i += 1;
    }
    assert(query@.skip(i as int) =~= Seq::empty());
    assert(out@ + Seq::<char>::empty() =~= out@);
    out.push('%');
    assert(out@ =~= seq!['%'] + like_escaped(query@) + seq!['%']);
    out
}

// ── where the database is ──────────────────────────────────────────────

/// The name of the database file, where no source has another.
pub const DB_FILE: &'static str = "library.sqlite3";

/// The database file: the override wins unless it is blank, otherwise the data
/// directory.
pub fn default_db_path(override_path: Option<String>, app_data: Option<String>) -> (r: Result<
    String,
    DbError,
>)
    ensures
        is_db_path(text::view_of(override_path), text::view_of(app_data), DB_FILE@, r),
{
    proof {
        reveal_strlit("library.sqlite3");
    }
    db_path(override_path, app_data, DB_FILE)
}

/// The name of a source's database file. The source that is there from the start
/// keeps the plain name.
pub open spec fn db_file(source: Source) -> Seq<char> {
    match source {
        Source::Apple => DB_FILE@,
        Source::Spotify => "library-spotify.sqlite3"@,
        Source::Navidrome => "library-navidrome.sqlite3"@,
        Source::Local => "library-local.sqlite3"@,
    }
}

/// The database file of a source: rows of one source never land in the file of
/// another. The override, where there is one, is for every source.
pub fn source_db_path(
    override_path: Option<String>,
    app_data: Option<String>,
    source: Source,
) -> (r: Result<String, DbError>)
    ensures
        is_db_path(text::view_of(override_path), text::view_of(app_data), db_file(source), r),
{
    proof {
        reveal_strlit("library.sqlite3");
        reveal_strlit("library-spotify.sqlite3");
        reveal_strlit("library-navidrome.sqlite3");
        reveal_strlit("library-local.sqlite3");
    }
    let name: &'static str = match source {
        Source::Apple => DB_FILE,
        Source::Spotify => "library-spotify.sqlite3",
        Source::Navidrome => "library-navidrome.sqlite3",
        Source::Local => "library-local.sqlite3",
    };
    db_path(override_path, app_data, name)
}

/// Whether `r` is where a database of this name is: at the override, unless it is
/// blank, otherwise in the data directory, without which there is none.
pub open spec fn is_db_path(
    override_path: Option<Seq<char>>,
    app_data: Option<Seq<char>>,
    name: Seq<char>,
    r: Result<String, DbError>,
) -> bool {
    if override_path is Some && !text::blank(override_path->0) {
        r is Ok && r->Ok_0@ == override_path->0
    } else if app_data is Some {
        r is Ok && outside::is_adjoined(app_data->0, name, r->Ok_0@)
    } else {
        r == Err::<String, DbError>(DbError::NoDataDir)
    }
}

fn db_path(override_path: Option<String>, app_data: Option<String>, name: &str) -> (r: Result<
    String,
    DbError,
>)
    requires
        outside::is_plain_name(name@),
    ensures
        is_db_path(text::view_of(override_path), text::view_of(app_data), name@, r),
{
    if let Some(p) = override_path {
        if !text::is_blank(p.as_str()) {
            return Ok(p);
        }
    }
    match app_data {
        Some(dir) => Ok(outside::path_join(dir.as_str(), name)),
        None => Err(DbError::NoDataDir),
    }
}

/// Each source has a database of its own: in one data directory, the files of two
/// sources differ.
pub proof fn lemma_sources_have_files_apart(
    override_path: Option<Seq<char>>,
    app_data: Seq<char>,
    a: Source,
    b: Source,
    pa: Result<String, DbError>,
    pb: Result<String, DbError>,
)
    requires
        a != b,
        override_path is None || text::blank(override_path->0),
        is_db_path(override_path, Some(app_data), db_file(a), pa),
        is_db_path(override_path, Some(app_data), db_file(b), pb),
    ensures
        pa->Ok_0@ != pb->Ok_0@,
{
    reveal_strlit("library.sqlite3");
    reveal_strlit("library-spotify.sqlite3");
    reveal_strlit("library-navidrome.sqlite3");
    reveal_strlit("library-local.sqlite3");
    assert(db_file(Source::Apple).len() == 15);
    assert(db_file(Source::Spotify).len() == 23);
    assert(db_file(Source::Navidrome).len() == 25);
    assert(db_file(Source::Local).len() == 21);
}

/// In a search, a backslash goes before each mark that the pattern would read as
/// its own, and every other letter stands as it is.
pub proof fn lemma_marks_are_escaped(c: char, rest: Seq<char>)
    ensures
        like_escaped(seq![c] + rest) == (if c == '%' || c == '_' || c == '\\' {
            seq!['\\', c]
        } else {
            seq![c]
        }) + like_escaped(rest),
        like_escaped(Seq::empty()).len() == 0,
{
    assert((seq![c] + rest).skip(1) =~= rest);
}

/// Each source's database goes by its own name.
pub proof fn lemma_names_of_databases()
    ensures
        db_file(Source::Apple) == "library.sqlite3"@,
        db_file(Source::Spotify) == "library-spotify.sqlite3"@,
        db_file(Source::Navidrome) == "library-navidrome.sqlite3"@,
        db_file(Source::Local) == "library-local.sqlite3"@,
        DB_FILE@ == "library.sqlite3"@,
{
}

/// A database lies where the override says, and else under the data directory;
/// without either there is no place for it.
pub proof fn lemma_where_a_database_is(
    override_path: Option<Seq<char>>,
    app_data: Option<Seq<char>>,
    name: Seq<char>,
    r: Result<String, DbError>,
)
    requires
        is_db_path(override_path, app_data, name, r),
    ensures
        override_path is Some && !text::blank(override_path->0) ==> r is Ok && r->Ok_0@
            == override_path->0,
        (override_path is None || text::blank(override_path->0)) && app_data is Some ==> r is Ok
            && outside::is_adjoined(app_data->0, name, r->Ok_0@),
        (override_path is None || text::blank(override_path->0)) && app_data is None ==> r
            == Err::<String, DbError>(DbError::NoDataDir),
{
}

} // verus!
