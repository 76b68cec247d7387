//! Local files as a library source.
//!
//! Scanning reads tags rather than asking a server; the rows it produces are
//! those every other source feeds into the library.

use vstd::prelude::*;
use vstd::hash_map::StringHashMap;
use crate::db::{AlbumUpsert, ArtistUpsert, SongUpsert};
use crate::outside;
use crate::text;

verus! {

// ── files ──────────────────────────────────────────────────────────────

/// The extensions that can be decoded, in lower case.
pub open spec fn is_audio_kind(ext: Seq<char>) -> bool {
    ||| ext == "flac"@
    ||| ext == "mp3"@
    ||| ext == "m4a"@
    ||| ext == "aac"@
    ||| ext == "ogg"@
    ||| ext == "oga"@
    ||| ext == "opus"@
    ||| ext == "wav"@
    ||| ext == "wave"@
}

/// Whether an extension, in whatever case, can be decoded.
pub fn is_audio_extension(ext: Option<String>) -> (r: bool)
    ensures
        r == (ext is Some && is_audio_kind(text::lowered(ext->0@))),
        r <==> ext is Some && ({
            let e = text::lowered(ext->0@);
            e == "flac"@ || e == "mp3"@ || e == "m4a"@ || e == "aac"@ || e == "ogg"@ || e == "oga"@
                || e == "opus"@ || e == "wav"@ || e == "wave"@
        }),
{
    match ext {
        Some(e) => {
            let l = text::to_lower(e.as_str());
            let k = l.as_str();
            text::same(k, "flac") || text::same(k, "mp3") || text::same(k, "m4a") || text::same(
                k,
                "aac",
            ) || text::same(k, "ogg") || text::same(k, "oga") || text::same(k, "opus")
                || text::same(k, "wav") || text::same(k, "wave")
        },
        None => false,
    }
}

/// Whether a file can be decoded, by its extension.
pub fn is_audio(path: &str) -> (r: bool)
    ensures
        outside::is_simple_path(path@) ==> r == ({
            let ext = outside::slash_extension(path@);
            ext is Some && is_audio_kind(text::lowered(ext->0))
        }),
        outside::has_dotted_name(path@) ==> r == is_audio_kind(
            text::lowered(outside::extension_of(outside::name_tail(path@))->0),
        ),
        outside::has_name(path@) ==> exists|ext: Option<Seq<char>>| #[trigger]
            outside::is_extension_in(path@, ext) && r == (ext is Some && is_audio_kind(
                text::lowered(ext->0),
            )),
{
    let ext = outside::path_extension(path);
    assert(outside::has_name(path@) ==> outside::is_extension_in(path@, text::view_of(ext)));
    is_audio_extension(ext)
}

/// Cover art is resolved on demand from the file itself, so a reference is kept
/// rather than a path to an image that may not exist.
pub const ARTWORK_PREFIX: &'static str = "local:";

/// The cover reference of a file.
pub fn artwork_ref(path: &str) -> (r: String)
    ensures
        r@ == ARTWORK_PREFIX@ + path@,
        r@ == "local:"@ + path@,
{
    text::concat(ARTWORK_PREFIX, path)
}

/// The title that a path gives where slashes separate it.
pub open spec fn simple_title(path: Seq<char>) -> Seq<char> {
    match outside::slash_stem(path) {
        Some(s) => s,
        None => "Unknown"@,
    }
}

/// Whether a title is the stem of a path, as one platform or another takes it.
/// Nothing is said of a path that does not end in a file name.
pub open spec fn is_fallback_title(path: Seq<char>, title: Seq<char>) -> bool {
    outside::has_name(path) ==> outside::is_stem_in(path, title) || (outside::is_doubled(path)
        && title == "Unknown"@)
}

/// A file with no usable title is named after the file rather than dropped.
pub fn title_fallback(path: &str) -> (r: String)
    ensures
        outside::is_simple_path(path@) ==> r@ == simple_title(path@),
        is_fallback_title(path@, r@),
        outside::is_simple_path(path@) && outside::slash_stem(path@) is Some ==> r@
            == outside::slash_stem(path@)->0,
        outside::is_simple_path(path@) && outside::slash_stem(path@) is None ==> r@ == "Unknown"@,
        outside::has_name(path@) && r@ != "Unknown"@ ==> outside::is_stem_in(path@, r@),
{
    title_or_unknown(outside::path_stem(path))
}

/// The stem of a file name, where there is one.
pub fn title_or_unknown(stem: Option<String>) -> (r: String)
    ensures
        r@ == (match stem {
            Some(s) => s@,
            None => "Unknown"@,
        }),
{
    match stem {
        Some(s) => s,
        None => "Unknown".to_string(),
    }
}

// ── ids ────────────────────────────────────────────────────────────────

/// What an id is made from: each part in lower case, closed by a zero.
pub open spec fn id_text(parts: Seq<Seq<char>>) -> Seq<char>
    decreases parts.len(),
{
    if parts.len() == 0 {
        Seq::empty()
    } else {
        id_text(parts.drop_last()) + text::lowered(parts.last()) + seq!['\0']
    }
}

/// The id made from these parts.
pub open spec fn id_of(parts: Seq<Seq<char>>) -> Seq<char> {
    outside::sha256_of(id_text(parts)).take(16)
}

fn stable_id(parts: &Vec<String>) -> (r: String)
    ensures
        r@ == id_of(text::views(parts@)),
        outside::is_hex_text(r@, 16),
{
    let mut buf = String::new();
    let ghost all = text::views(parts@);
    let mut i: usize = 0;
    assert(all.take(0) =~= Seq::empty());
    while i < parts.len()
        invariant
            all == text::views(parts@),
            i <= parts@.len(),
            buf@ == id_text(all.take(i as int)),
        decreases parts@.len() - i,
    {
        let ghost before = buf@;
        let low = text::to_lower(parts[i].as_str());
        buf.append(low.as_str());
        buf.push('\0');
        assert(all.take(i + 1).drop_last() =~= all.take(i as int));
        assert(all.take(i + 1).last() == parts@[i as int]@);
        assert(buf@ =~= before + text::lowered(parts@[i as int]@) + seq!['\0']);
        i += 1;
    }
    assert(all.take(i as int) =~= all);
    let digest = outside::sha256_hex(buf.as_str());
    let v = text::to_chars(digest.as_str());
    assert(v@.subrange(0, 16) =~= digest@.take(16));
    text::slice(&v, 0, 16)
}

/// Albums group on album artist plus title. Grouping on the track artist would
/// scatter a compilation into one album per performer.
pub fn album_id(album_artist: &str, album: &str) -> (r: String)
    ensures
        r@ == id_of(seq![album_artist@, album@]),
        r@ == outside::sha256_of(
            text::lowered(album_artist@) + seq!['\0'] + text::lowered(album@) + seq!['\0'],
        ).take(16),
        outside::is_hex_text(r@, 16),
{
    let parts = vec![album_artist.to_string(), album.to_string()];
    proof {
        lemma_id_text_of(album_artist@, album@);
    }
    assert(text::views(parts@) =~= seq![album_artist@, album@]);
    stable_id(&parts)
}

/// The id of an artist.
pub fn artist_id(name: &str) -> (r: String)
    ensures
        r@ == id_of(seq![name@]),
        r@ == outside::sha256_of(text::lowered(name@) + seq!['\0']).take(16),
        outside::is_hex_text(r@, 16),
{
    let parts = vec![name.to_string()];
    proof {
        lemma_id_text_of(name@, name@);
    }
    assert(text::views(parts@) =~= seq![name@]);
    stable_id(&parts)
}

/// Case does not make a second album, nor a second artist.
pub proof fn lemma_ids_ignore_case(
    artist: Seq<char>,
    other_artist: Seq<char>,
    album: Seq<char>,
    other_album: Seq<char>,
)
    requires
        text::lowered(artist) == text::lowered(other_artist),
        text::lowered(album) == text::lowered(other_album),
    ensures
        id_of(seq![artist, album]) == id_of(seq![other_artist, other_album]),
        id_of(seq![artist]) == id_of(seq![other_artist]),
{
    reveal_with_fuel(id_text, 3);
    assert(seq![artist, album].drop_last() =~= seq![artist]);
    assert(seq![other_artist, other_album].drop_last() =~= seq![other_artist]);
    assert(seq![artist].drop_last() =~= Seq::empty());
    assert(seq![other_artist].drop_last() =~= Seq::empty());
}

/// Parts are kept apart: where no artist holds a zero, what an id is made from is
/// the same only for artists and albums that are, but for case. Where letters move
/// from one part to the other it differs.
pub proof fn lemma_id_parts_kept_apart(
    artist: Seq<char>,
    other_artist: Seq<char>,
    album: Seq<char>,
    other_album: Seq<char>,
)
    requires
        !artist.contains('\0'),
        !other_artist.contains('\0'),
    ensures
        id_text(seq![artist, album]) == id_text(seq![other_artist, other_album]) <==> (
        text::lowered(artist) == text::lowered(other_artist) && text::lowered(album)
            == text::lowered(other_album)),
        id_text(seq![artist]) == id_text(seq![other_artist]) <==> text::lowered(artist)
            == text::lowered(other_artist),
{
    lemma_id_text(artist, album);
    lemma_id_text(other_artist, other_album);
    let a = text::lowered(artist);
    let b = text::lowered(album);
    let c = text::lowered(other_artist);
    let d = text::lowered(other_album);
    if id_text(seq![artist, album]) == id_text(seq![other_artist, other_album]) {
        let t = a + seq!['\0'] + b + seq!['\0'];
        assert(t == c + seq!['\0'] + d + seq!['\0']);
        assert(a.len() == c.len());
        assert(a =~= t.take(a.len() as int));
        assert(c =~= t.take(a.len() as int));
        assert(b =~= t.subrange((a.len() + 1) as int, t.len() - 1));
        assert(d =~= t.subrange((a.len() + 1) as int, t.len() - 1));
    }
    if id_text(seq![artist]) == id_text(seq![other_artist]) {
        let t = a + seq!['\0'];
        assert(a =~= t.drop_last());
        assert(c =~= t.drop_last());
    }
}

/// What an id of one part and of two is made from.
pub proof fn lemma_id_text_of(artist: Seq<char>, album: Seq<char>)
    ensures
        id_text(seq![artist]) == text::lowered(artist) + seq!['\0'],
        id_text(seq![artist, album]) == text::lowered(artist) + seq!['\0'] + text::lowered(album)
            + seq!['\0'],
{
    reveal_with_fuel(id_text, 3);
    assert(seq![artist, album].drop_last() =~= seq![artist]);
    assert(seq![artist].drop_last() =~= Seq::empty());
    assert(id_text(seq![artist]) =~= text::lowered(artist) + seq!['\0']);
    assert(id_text(seq![artist, album]) =~= text::lowered(artist) + seq!['\0'] + text::lowered(
        album,
    ) + seq!['\0']);
}

/// What an id of one part and of two is made from, and where the first part ends.
proof fn lemma_id_text(artist: Seq<char>, album: Seq<char>)
    requires
        !artist.contains('\0'),
    ensures
        id_text(seq![artist]) == text::lowered(artist) + seq!['\0'],
        id_text(seq![artist, album]) == text::lowered(artist) + seq!['\0'] + text::lowered(album)
            + seq!['\0'],
        text::index_of(
            text::lowered(artist) + seq!['\0'] + text::lowered(album) + seq!['\0'],
            '\0',
        ) == text::lowered(artist).len(),
{
    lemma_id_text_of(artist, album);
    let a = text::lowered(artist);
    let t = a + seq!['\0'] + text::lowered(album) + seq!['\0'];
    assert forall|j: int| 0 <= j < a.len() implies t[j] != '\0' by {
        assert(artist.contains(artist[j]));
        assert(t[j] == text::lower(artist[j]));
    }
    text::lemma_index_of_is(t, '\0', a.len() as int);
}

// ── tags ───────────────────────────────────────────────────────────────

/// What a file's tags told, already defaulted.
#[derive(Debug, PartialEq, Eq)]
pub struct Tags {
    pub title: String,
    pub artist: String,
    pub album_artist: String,
    pub album: String,
    pub track_number: Option<i64>,
    pub disc_number: Option<i64>,
    pub duration_ms: u64,
    pub has_picture: bool,
}

/// What a file's tags hold, as they stand.
#[derive(Debug, PartialEq, Eq)]
pub struct RawTags {
    pub title: Option<String>,
    pub artist: Option<String>,
    pub album_artist: Option<String>,
    pub album: Option<String>,
    pub track_number: Option<String>,
    pub disc_number: Option<String>,
    pub duration_ms: u64,
    pub pictures: u32,
}

/// A tag that says something.
pub open spec fn says(tag: Option<String>) -> bool {
    tag is Some && text::trimmed(tag->0@).len() > 0
}

/// What a tag says, or else a default.
pub open spec fn said_or(tag: Option<String>, default: Seq<char>) -> Seq<char> {
    if says(tag) {
        text::trimmed(tag->0@)
    } else {
        default
    }
}

/// The number a tag gives, of which only what stands before a slash counts.
pub open spec fn number_in(tag: Option<String>) -> Option<int> {
    if says(tag) {
        let t = text::trimmed(tag->0@);
        text::read_signed(text::trimmed(t.take(text::index_of(t, '/'))))
    } else {
        None
    }
}

/// A tag without the white space around it; a blank one is none.
fn tag_text(tag: Option<String>) -> (r: Option<String>)
    ensures
        match r {
            Some(s) => says(tag) && s@ == text::trimmed(tag->0@),
            None => !says(tag),
        },
{
    match tag {
        Some(s) => {
            let t = text::trim(s.as_str());
            proof {
                reveal_strlit("");
                if t@.len() == 0 {
                    assert(t@ =~= ""@);
                }
            }
            if text::same(t.as_str(), "") {
                None
            } else {
                Some(t)
            }
        },
        None => None,
    }
}

fn tag_number(tag: Option<String>) -> (r: Option<i64>)
    ensures
        match r {
            Some(n) => number_in(tag) == Some(n as int),
            None => number_in(tag) is None,
        },
{
    match tag_text(tag) {
        Some(t) => {
            let v = text::to_chars(t.as_str());
            let end: usize = text::find_char(&v, 0, v.len(), '/');
            assert(v@.subrange(0, v@.len() as int) =~= v@);
            let head = text::slice(&v, 0, end);
            assert(v@.subrange(0, end as int) =~= v@.take(end as int));
            let n = text::trim(head.as_str());
            text::parse_signed(n.as_str())
        },
        None => None,
    }
}

/// Fills in what a file's tags leave out. Where the album artist is missing the
/// track artist stands in, which keeps an ordinary album together.
pub fn tags_from(raw: RawTags, path: &str) -> (r: Tags)
    ensures
        outside::is_simple_path(path@) || says(raw.title) ==> r.title@ == said_or(
            raw.title,
            simple_title(path@),
        ),
        !says(raw.title) ==> is_fallback_title(path@, r.title@),
        r.artist@ == said_or(raw.artist, "Unknown Artist"@),
        r.album_artist@ == said_or(raw.album_artist, said_or(raw.artist, "Unknown Artist"@)),
        r.album@ == said_or(raw.album, "Unknown Album"@),
        match r.track_number {
            Some(n) => number_in(raw.track_number) == Some(n as int),
            None => number_in(raw.track_number) is None,
        },
        match r.disc_number {
            Some(n) => number_in(raw.disc_number) == Some(n as int),
            None => number_in(raw.disc_number) is None,
        },
        raw.title is Some && text::trimmed(raw.title->0@).len() > 0 ==> r.title@ == text::trimmed(
            raw.title->0@,
        ),
        raw.artist is Some && text::trimmed(raw.artist->0@).len() > 0 ==> r.artist@ == text::trimmed(
            raw.artist->0@,
        ),
        raw.artist is None || text::trimmed(raw.artist->0@).len() == 0 ==> r.artist@ == "Unknown Artist"@,
        raw.album_artist is Some && text::trimmed(raw.album_artist->0@).len() > 0 ==> r.album_artist@ == text::trimmed(
            raw.album_artist->0@,
        ),
        raw.album_artist is None || text::trimmed(raw.album_artist->0@).len() == 0 ==> r.album_artist@ == r.artist@,
        raw.album is Some && text::trimmed(raw.album->0@).len() > 0 ==> r.album@ == text::trimmed(
            raw.album->0@,
        ),
        raw.album is None || text::trimmed(raw.album->0@).len() == 0 ==> r.album@ == "Unknown Album"@,
        r.duration_ms == raw.duration_ms,
        r.has_picture == (raw.pictures > 0),
{
    let artist = match tag_text(raw.artist) {
        Some(s) => s,
        None => "Unknown Artist".to_string(),
    };
    let album_artist = match tag_text(raw.album_artist) {
        Some(s) => s,
        None => artist.clone(),
    };
    let title = match tag_text(raw.title) {
        Some(s) => s,
        None => title_fallback(path),
    };
    let album = match tag_text(raw.album) {
        Some(s) => s,
        None => "Unknown Album".to_string(),
    };
    Tags {
        title,
        artist,
        album_artist,
        album,
        track_number: tag_number(raw.track_number),
        disc_number: tag_number(raw.disc_number),
        duration_ms: raw.duration_ms,
        has_picture: raw.pictures > 0,
    }
}

/// The library row that a file at a path and its tags imply.
pub open spec fn is_song_of(s: SongUpsert, path: Seq<char>, t: Tags) -> bool {
    &&& s.id@ == path
    &&& s.catalog_id is None
    &&& s.name == t.title
    &&& s.artist_name == t.artist
    &&& s.album_name == t.album
    &&& text::view_of(s.album_id) == Some(id_of(seq![t.album_artist@, t.album@]))
    &&& s.duration_ms == t.duration_ms
    &&& text::view_of(s.artwork_url) == (if t.has_picture {
        Some(ARTWORK_PREFIX@ + path)
    } else {
        None
    })
    &&& s.track_number == t.track_number
    &&& s.disc_number == t.disc_number
    &&& s.added_at is None
    &&& s.artwork_width is None
    &&& s.artwork_height is None
}

/// A row says what the tags of its file say, field by field: the title is its name
/// and the album is its album.
pub proof fn lemma_song_row_fields(s: SongUpsert, path: Seq<char>, t: Tags)
    requires
        is_song_of(s, path, t),
    ensures
        s.id@ == path,
        s.catalog_id is None,
        s.name == t.title,
        s.artist_name == t.artist,
        s.album_name == t.album,
        s.album_id is Some,
        s.album_id->0@ == outside::sha256_of(
            text::lowered(t.album_artist@) + seq!['\0'] + text::lowered(t.album@) + seq!['\0'],
        ).take(16),
        s.duration_ms == t.duration_ms,
        s.artwork_url is Some <==> t.has_picture,
        t.has_picture ==> s.artwork_url->0@ == "local:"@ + path,
        s.track_number == t.track_number,
        s.disc_number == t.disc_number,
        s.added_at is None,
        s.artwork_width is None,
        s.artwork_height is None,
{
    lemma_id_text_of(t.album_artist@, t.album@);
}

/// A number in a tag is what stands before the slash, if there is one.
pub proof fn lemma_tag_numbers(tag: String, n: nat, rest: Seq<char>)
    requires
        n <= 0x7fff_ffff_ffff_ffff,
        tag@ == text::decimal(n) || tag@ == text::decimal(n) + seq!['/'] + rest,
    ensures
        number_in(Some(tag)) == Some(n as int),
{
    let d = text::decimal(n);
    let k = d.len() as int;
    text::lemma_decimal(n);
    text::lemma_decimal_reads_back(n, 0x7fff_ffff_ffff_ffff);
    assert(text::is_digit(d[0]) && text::is_digit(d[k - 1]));
    text::lemma_trimmed_keeps(d, k - 1);
    let t = text::trimmed(tag@);
    assert forall|j: int| 0 <= j < k implies d[j] != '/' by {
        assert(text::is_digit(d[j]));
    }
    if tag@ == d {
        text::lemma_index_of_is(t, '/', k);
    } else {
        assert(tag@[0] == d[0]);
        assert(tag@[k] == '/');
        text::lemma_trimmed_keeps(tag@, k);
        assert forall|j: int| 0 <= j <= k implies t[j] == tag@[j] by {
            assert(t.take(k + 1)[j] == tag@.take(k + 1)[j]);
        }
        text::lemma_index_of_is(t, '/', k);
    }
    assert(t.take(k) =~= d);
}

/// The row of a file. The path is the id: it is stable across rescans, and
/// playing the track is then just opening it.
pub fn song_from(path: &str, tags: &Tags) -> (r: SongUpsert)
    ensures
        is_song_of(r, path@, *tags),
        r.id@ == path@,
        r.catalog_id is None,
        r.name == tags.title,
        r.artist_name == tags.artist,
        r.album_name == tags.album,
        r.album_id is Some,
        r.album_id->0@ == outside::sha256_of(
            text::lowered(tags.album_artist@) + seq!['\0'] + text::lowered(tags.album@) + seq!['\0'],
        ).take(16),
        r.duration_ms == tags.duration_ms,
        r.artwork_url is Some <==> tags.has_picture,
        tags.has_picture ==> r.artwork_url->0@ == "local:"@ + path@,
        r.track_number == tags.track_number,
        r.disc_number == tags.disc_number,
        r.added_at is None,
        r.artwork_width is None,
        r.artwork_height is None,
{
    SongUpsert {
        id: path.to_string(),
        catalog_id: None,
        name: tags.title.clone(),
        artist_name: tags.artist.clone(),
        album_name: tags.album.clone(),
        album_id: Some(album_id(tags.album_artist.as_str(), tags.album.as_str())),
        duration_ms: tags.duration_ms,
        artwork_url: if tags.has_picture {
            Some(artwork_ref(path))
        } else {
            None
        },
        track_number: tags.track_number,
        disc_number: tags.disc_number,
        added_at: None,
        artwork_width: None,
        artwork_height: None,
    }
}

/// The tags of scanned files, by song id.
pub struct TagIndex {
    map: StringHashMap<Tags>,
}

impl View for TagIndex {
    type V = Map<Seq<char>, Tags>;

    closed spec fn view(&self) -> Map<Seq<char>, Tags> {
        self.map@
    }
}

impl TagIndex {
    /// No tags yet.
    pub fn new() -> (r: Self)
        ensures
            r@ == Map::<Seq<char>, Tags>::empty(),
    {
        TagIndex { map: StringHashMap::new() }
    }

    /// Keeps the tags of a song.
    pub fn insert(&mut self, id: String, tags: Tags)
        ensures
            final(self)@ == old(self)@.insert(id@, tags),
    {
        self.map.insert(id, tags);
    }

    /// The tags of a song.
    pub fn get(&self, id: &str) -> (r: Option<&Tags>)
        ensures
            match r {
                Some(t) => self@.contains_key(id@) && *t == self@[id@],
                None => !self@.contains_key(id@),
            },
    {
        self.map.get(id)
    }
}

// ── albums ─────────────────────────────────────────────────────────────

/// A song on the album with this id.
pub open spec fn on_album(s: SongUpsert, id: Seq<char>) -> bool {
    s.album_id is Some && s.album_id->0@ == id
}

/// How many songs are on an album.
pub open spec fn tracks_on(songs: Seq<SongUpsert>, id: Seq<char>) -> nat
    decreases songs.len(),
{
    if songs.len() == 0 {
        0
    } else {
        tracks_on(songs.drop_last(), id) + if on_album(songs.last(), id) {
            1nat
        } else {
            0nat
        }
    }
}

/// The cover of the first song on an album that has one.
pub open spec fn first_cover(songs: Seq<SongUpsert>, id: Seq<char>) -> Option<String>
    decreases songs.len(),
{
    if songs.len() == 0 {
        None
    } else {
        let earlier = first_cover(songs.drop_last(), id);
        if earlier is Some {
            earlier
        } else if on_album(songs.last(), id) {
            songs.last().artwork_url
        } else {
            None
        }
    }
}

/// Whether song `i` is the first one on an album.
pub open spec fn leads(songs: Seq<SongUpsert>, i: int, id: Seq<char>) -> bool {
    &&& 0 <= i < songs.len()
    &&& on_album(songs[i], id)
    &&& forall|j: int| 0 <= j < i ==> !on_album(#[trigger] songs[j], id)
}

/// The album artist of a song: from its tags, or else the track's own artist.
pub open spec fn album_artist_of(s: SongUpsert, tags: Map<Seq<char>, Tags>) -> String {
    if tags.contains_key(s.id@) {
        tags[s.id@].album_artist
    } else {
        s.artist_name
    }
}

/// Whether a row is the album that song `lead`, the first one on it, implies.
pub open spec fn is_album_by(
    songs: Seq<SongUpsert>,
    tags: Map<Seq<char>, Tags>,
    row: AlbumUpsert,
    lead: int,
) -> bool {
    &&& leads(songs, lead, row.id@)
    &&& row.name == songs[lead].album_name
    &&& row.artist_name == album_artist_of(songs[lead], tags)
    &&& row.track_count == tracks_on(songs, row.id@)
    &&& row.artwork_url == first_cover(songs, row.id@)
    &&& row.catalog_id is None
    &&& row.release_date is None
    &&& row.added_at is None
    &&& row.artwork_width is None
    &&& row.artwork_height is None
}

/// Whether a row is an album that the songs imply.
pub open spec fn is_album_of(
    songs: Seq<SongUpsert>,
    tags: Map<Seq<char>, Tags>,
    row: AlbumUpsert,
) -> bool {
    exists|lead: int| is_album_by(songs, tags, row, lead)
}

proof fn lemma_tracks_bound(songs: Seq<SongUpsert>, id: Seq<char>)
    ensures
        tracks_on(songs, id) <= songs.len(),
    decreases songs.len(),
{
    if songs.len() > 0 {
        lemma_tracks_bound(songs.drop_last(), id);
    }
}

proof fn lemma_no_tracks(songs: Seq<SongUpsert>, id: Seq<char>)
    requires
        forall|j: int| 0 <= j < songs.len() ==> !on_album(#[trigger] songs[j], id),
    ensures
        tracks_on(songs, id) == 0,
        first_cover(songs, id) is None,
    decreases songs.len(),
{
    if songs.len() > 0 {
        assert(!on_album(songs[songs.len() - 1], id));
        assert forall|j: int| 0 <= j < songs.len() - 1 implies !on_album(
            #[trigger] songs.drop_last()[j],
            id,
        ) by {
            assert(!on_album(songs[j], id));
        }
        lemma_no_tracks(songs.drop_last(), id);
    }
}

/// An album row stays right when one more song is looked at, once its count and
/// its cover are brought up to date.
proof fn lemma_album_grows(
    before: Seq<SongUpsert>,
    s: SongUpsert,
    tags: Map<Seq<char>, Tags>,
    row: AlbumUpsert,
    grown: AlbumUpsert,
)
    requires
        is_album_of(before, tags, row),
        grown == (if on_album(s, row.id@) {
            AlbumUpsert {
                track_count: (row.track_count + 1) as u32,
                artwork_url: if row.artwork_url is Some {
                    row.artwork_url
                } else {
                    s.artwork_url
                },
                ..row
            }
        } else {
            row
        }),
        before.len() < u32::MAX,
    ensures
        is_album_of(before.push(s), tags, grown),
{
    let after = before.push(s);
    let lead = choose|lead: int| is_album_by(before, tags, row, lead);
    lemma_tracks_bound(before, row.id@);
    assert(after.drop_last() =~= before);
    assert(after.last() == s);
    assert(leads(after, lead, row.id@)) by {
        assert(after[lead] == before[lead]);
        assert forall|j: int| 0 <= j < lead implies !on_album(#[trigger] after[j], row.id@) by {
            assert(after[j] == before[j]);
        }
    }
    assert(is_album_by(after, tags, grown, lead));
}

/// Every album that a song is on has a row.
#[verifier::opaque]
pub open spec fn albums_complete(songs: Seq<SongUpsert>, rows: Seq<AlbumUpsert>) -> bool {
    forall|j: int|
        0 <= j < songs.len() && (#[trigger] songs[j]).album_id is Some ==> exists|k: int|
            0 <= k < rows.len() && (#[trigger] rows[k]).id@ == songs[j].album_id->0@
}

/// How many tracks an album has is how many songs carry its id.
pub proof fn lemma_tracks_are_counted(songs: Seq<SongUpsert>, id: Seq<char>)
    ensures
        tracks_on(songs, id) == songs.filter(
            |s: SongUpsert| s.album_id is Some && s.album_id->0@ == id,
        ).len(),
    decreases songs.len(),
{
    reveal(Seq::filter);
    if songs.len() > 0 {
        lemma_tracks_are_counted(songs.drop_last(), id);
    }
}

/// The cover of an album is that of its first song that has one.
pub proof fn lemma_cover_is_the_first(songs: Seq<SongUpsert>, id: Seq<char>, i: int)
    requires
        0 <= i < songs.len(),
        songs[i].album_id is Some && songs[i].album_id->0@ == id,
        songs[i].artwork_url is Some,
        forall|j: int|
            0 <= j < i ==> !((#[trigger] songs[j]).album_id is Some && songs[j].album_id->0@ == id
                && songs[j].artwork_url is Some),
    ensures
        first_cover(songs, id) == songs[i].artwork_url,
    decreases songs.len(),
{
    let front = songs.drop_last();
    if i < front.len() {
        assert forall|j: int| 0 <= j < i implies !((#[trigger] front[j]).album_id is Some
            && front[j].album_id->0@ == id && front[j].artwork_url is Some) by {
            assert(front[j] == songs[j]);
        }
        lemma_cover_is_the_first(front, id, i);
    } else {
        assert forall|j: int| 0 <= j < front.len() implies !((#[trigger] front[j]).album_id is Some
            && front[j].album_id->0@ == id && front[j].artwork_url is Some) by {
            assert(front[j] == songs[j]);
        }
        lemma_no_cover(front, id);
    }
}

/// An album none of whose songs has a cover has none.
pub proof fn lemma_no_cover(songs: Seq<SongUpsert>, id: Seq<char>)
    requires
        forall|j: int|
            0 <= j < songs.len() ==> !((#[trigger] songs[j]).album_id is Some && songs[j].album_id->0@
                == id && songs[j].artwork_url is Some),
    ensures
        first_cover(songs, id) is None,
    decreases songs.len(),
{
    if songs.len() > 0 {
        let front = songs.drop_last();
        assert forall|j: int| 0 <= j < front.len() implies !((#[trigger] front[j]).album_id is Some
            && front[j].album_id->0@ == id && front[j].artwork_url is Some) by {
            assert(front[j] == songs[j]);
        }
        lemma_no_cover(front, id);
        assert(!(songs[songs.len() - 1].album_id is Some && songs[songs.len() - 1].album_id->0@ == id
            && songs[songs.len() - 1].artwork_url is Some));
    }
}

/// An album row takes its name from the first song that carries its id, and its
/// artist from the album artist that the song's tags name.
pub proof fn lemma_album_row_fields(
    songs: Seq<SongUpsert>,
    tags: Map<Seq<char>, Tags>,
    row: AlbumUpsert,
)
    requires
        is_album_of(songs, tags, row),
    ensures
        exists|lead: int| #[trigger]
            leads(songs, lead, row.id@) && songs[lead].album_id is Some && songs[lead].album_id->0@
                == row.id@ && row.name == songs[lead].album_name && (tags.contains_key(
                songs[lead].id@,
            ) ==> row.artist_name == tags[songs[lead].id@].album_artist) && (!tags.contains_key(
                songs[lead].id@,
            ) ==> row.artist_name == songs[lead].artist_name) && forall|j: int|
                0 <= j < lead ==> !((#[trigger] songs[j]).album_id is Some && songs[j].album_id->0@
                    == row.id@),
        ({
            let id = row.id@;
            row.track_count == songs.filter(
                |s: SongUpsert| s.album_id is Some && s.album_id->0@ == id,
            ).len()
        }),
        row.catalog_id is None,
        row.release_date is None,
        row.added_at is None,
{
    let lead = choose|lead: int| is_album_by(songs, tags, row, lead);
    assert(leads(songs, lead, row.id@));
    assert forall|j: int| 0 <= j < lead implies !((#[trigger] songs[j]).album_id is Some
        && songs[j].album_id->0@ == row.id@) by {
        assert(!on_album(songs[j], row.id@));
    }
    lemma_tracks_are_counted(songs, row.id@);
}

/// Folds scanned tracks into the album rows they imply, in the order in which
/// the albums first appear. A cover is borrowed from the first track that has
/// one.
pub fn albums_from(songs: &Vec<SongUpsert>, tags: &TagIndex) -> (r: Vec<AlbumUpsert>)
    requires
        songs@.len() <= u32::MAX,
    ensures
        forall|k: int| 0 <= k < r@.len() ==> is_album_of(songs@, tags@, #[trigger] r@[k]),
        forall|a: int, b: int|
            0 <= a < b < r@.len() ==> (#[trigger] r@[a]).id@ != (#[trigger] r@[b]).id@,
        albums_complete(songs@, r@),
{
    let mut out: Vec<AlbumUpsert> = Vec::new();
    let mut index: StringHashMap<usize> = StringHashMap::new();
    let mut i: usize = 0;
    while i < songs.len()
        invariant
            songs@.len() <= u32::MAX,
            i <= songs@.len(),
            forall|k: int|
                0 <= k < out@.len() ==> is_album_of(
                    songs@.take(i as int),
                    tags@,
                    #[trigger] out@[k],
                ),
            forall|k: int|
                0 <= k < out@.len() ==> index@.contains_key((#[trigger] out@[k]).id@)
                    && index@[out@[k].id@] == k,
            forall|id: Seq<char>| #[trigger]
                index@.contains_key(id) ==> index@[id] < out@.len() && out@[index@[id] as int].id@
                    == id,
            forall|j: int|
                0 <= j < i && (#[trigger] songs@[j]).album_id is Some ==> index@.contains_key(
                    songs@[j].album_id->0@,
                ),
        decreases songs@.len() - i,
    {
        let s = &songs[i];
        let ghost before = songs@.take(i as int);
        let ghost after = songs@.take(i + 1);
        assert(after =~= before.push(*s));
        if let Some(id) = &s.album_id {
            let found: Option<usize> = match index.get(id.as_str()) {
                Some(k) => Some(*k),
                None => None,
            };
            match found {
                Some(k) => {
                    let ghost row = out@[k as int];
                    proof {
                        lemma_tracks_bound(before, row.id@);
                        assert(is_album_of(before, tags@, row));
                    }
                    let old_row = &out[k];
                    let grown = AlbumUpsert {
                        id: old_row.id.clone(),
                        catalog_id: None,
                        name: old_row.name.clone(),
                        artist_name: old_row.artist_name.clone(),
                        artwork_url: match &old_row.artwork_url {
                            Some(u) => Some(u.clone()),
                            None => text::copy_opt(&s.artwork_url),
                        },
                        release_date: None,
                        track_count: old_row.track_count + 1,
                        added_at: None,
                        artwork_width: None,
                        artwork_height: None,
                    };
                    let ghost rows = out@;
                    out.set(k, grown);
                    proof {
                        assert forall|m: int| 0 <= m < out@.len() implies is_album_of(
                            after,
                            tags@,
                            #[trigger] out@[m],
                        ) by {
                            assert(is_album_of(before, tags@, rows[m]));
                            if m != k {
                                assert(index@[rows[m].id@] == m);
                                assert(rows[m].id@ != id@);
                            }
                            lemma_album_grows(before, *s, tags@, rows[m], out@[m]);
                        }
                    }
                },
                None => {
                    let artist_name = match tags.get(s.id.as_str()) {
                        Some(t) => t.album_artist.clone(),
                        None => s.artist_name.clone(),
                    };
                    let row = AlbumUpsert {
                        id: id.clone(),
                        catalog_id: None,
                        name: s.album_name.clone(),
                        artist_name,
                        artwork_url: text::copy_opt(&s.artwork_url),
                        release_date: None,
                        track_count: 1,
                        added_at: None,
                        artwork_width: None,
                        artwork_height: None,
                    };
                    let ghost rows = out@;
                    let ghost new_row = row;
                    proof {
                        assert forall|j: int| 0 <= j < before.len() implies !on_album(
                            #[trigger] before[j],
                            id@,
                        ) by {
                            assert(before[j] == songs@[j]);
                        }
                        lemma_no_tracks(before, id@);
                        assert(after.drop_last() =~= before);
                        assert(after.last() == *s);
                        assert forall|j: int| 0 <= j < i implies !on_album(
                            #[trigger] after[j],
                            id@,
                        ) by {
                            assert(after[j] == before[j]);
                        }
                        assert(leads(after, i as int, id@));
                        assert(is_album_by(after, tags@, new_row, i as int));
                    }
                    index.insert(id.clone(), out.len());
                    out.push(row);
                    proof {
                        assert forall|m: int| 0 <= m < out@.len() implies is_album_of(
                            after,
                            tags@,
                            #[trigger] out@[m],
                        ) by {
                            if m < rows.len() {
                                assert(is_album_of(before, tags@, rows[m]));
                                assert(rows[m].id@ != id@);
                                lemma_album_grows(before, *s, tags@, rows[m], out@[m]);
                            }
                        }
                    }
                },
            }
        } else {
            proof {
                assert forall|m: int| 0 <= m < out@.len() implies is_album_of(
                    after,
                    tags@,
                    #[trigger] out@[m],
                ) by {
                    assert(is_album_of(before, tags@, out@[m]));
                    lemma_album_grows(before, *s, tags@, out@[m], out@[m]);
                }
            }
        }
        i += 1;
    }
    proof {
        assert(songs@.take(i as int) =~= songs@);
        assert forall|a: int, b: int| 0 <= a < b < out@.len() implies (#[trigger] out@[a]).id@ != (
        #[trigger] out@[b]).id@ by {
            assert(index@[out@[a].id@] == a);
            assert(index@[out@[b].id@] == b);
        }
        reveal(albums_complete);
        assert forall|j: int|
            0 <= j < songs@.len() && (
            #[trigger] songs@[j]).album_id is Some implies exists|k: int|
            0 <= k < out@.len() && (#[trigger] out@[k]).id@ == songs@[j].album_id->0@ by {
            let k = index@[songs@[j].album_id->0@];
            assert(out@[k as int].id@ == songs@[j].album_id->0@);
        }
    }
    out
}

// ── artists ────────────────────────────────────────────────────────────

/// The artist id of a song.
pub open spec fn artist_key(s: SongUpsert) -> Seq<char> {
    id_of(seq![s.artist_name@])
}

/// A song that names its artist.
pub open spec fn names_artist(s: SongUpsert) -> bool {
    !text::blank(s.artist_name@)
}

/// Whether a row is the artist that song `lead` is the first to name.
pub open spec fn is_artist_by(songs: Seq<SongUpsert>, row: ArtistUpsert, lead: int) -> bool {
    &&& 0 <= lead < songs.len()
    &&& names_artist(songs[lead])
    &&& row.id@ == artist_key(songs[lead])
    &&& row.name == songs[lead].artist_name
    &&& row.artwork_url is None
    &&& forall|j: int|
        0 <= j < lead && names_artist(#[trigger] songs[j]) ==> artist_key(songs[j]) != row.id@
}

/// Whether a row is an artist that the songs name.
pub open spec fn is_artist_of(songs: Seq<SongUpsert>, row: ArtistUpsert) -> bool {
    exists|lead: int| is_artist_by(songs, row, lead)
}

/// Every artist that a song names has a row.
#[verifier::opaque]
pub open spec fn artists_complete(songs: Seq<SongUpsert>, rows: Seq<ArtistUpsert>) -> bool {
    forall|j: int|
        0 <= j < songs.len() && names_artist(#[trigger] songs[j]) ==> exists|k: int|
            0 <= k < rows.len() && (#[trigger] rows[k]).id@ == artist_key(songs[j])
}

/// An artist row takes its name from the first song by that artist, the case of
/// the name aside, and its id from the name.
pub proof fn lemma_artist_row_fields(songs: Seq<SongUpsert>, row: ArtistUpsert)
    requires
        is_artist_of(songs, row),
    ensures
        exists|lead: int|
            0 <= lead < songs.len() && row.name == (#[trigger] songs[lead]).artist_name
                && !text::blank(songs[lead].artist_name@) && row.id@ == outside::sha256_of(
                text::lowered(songs[lead].artist_name@) + seq!['\0'],
            ).take(16),
        row.artwork_url is None,
{
    let lead = choose|lead: int| is_artist_by(songs, row, lead);
    lemma_id_text_of(songs[lead].artist_name@, songs[lead].artist_name@);
    assert(row.name == songs[lead].artist_name);
}

/// The artists that songs name, each once, in the order in which they first
/// appear. Blank names are left out.
pub fn artists_from(songs: &Vec<SongUpsert>) -> (r: Vec<ArtistUpsert>)
    ensures
        forall|k: int| 0 <= k < r@.len() ==> is_artist_of(songs@, #[trigger] r@[k]),
        forall|a: int, b: int|
            0 <= a < b < r@.len() ==> (#[trigger] r@[a]).id@ != (#[trigger] r@[b]).id@,
        artists_complete(songs@, r@),
{
    let mut out: Vec<ArtistUpsert> = Vec::new();
    let mut index: StringHashMap<usize> = StringHashMap::new();
    let mut i: usize = 0;
    while i < songs.len()
        invariant
            i <= songs@.len(),
            forall|k: int| 0 <= k < out@.len() ==> is_artist_of(songs@, #[trigger] out@[k]),
            forall|k: int|
                0 <= k < out@.len() ==> index@.contains_key((#[trigger] out@[k]).id@)
                    && index@[out@[k].id@] == k,
            forall|id: Seq<char>| #[trigger]
                index@.contains_key(id) ==> index@[id] < out@.len() && out@[index@[id] as int].id@
                    == id,
            forall|j: int|
                0 <= j < i && names_artist(#[trigger] songs@[j]) ==> index@.contains_key(
                    artist_key(songs@[j]),
                ),
        decreases songs@.len() - i,
    {
        let s = &songs[i];
        if !text::is_blank(s.artist_name.as_str()) {
            let id = artist_id(s.artist_name.as_str());
            if !index.contains_key(id.as_str()) {
                let row = ArtistUpsert {
                    id: id.clone(),
                    name: s.artist_name.clone(),
                    artwork_url: None,
                };
                assert(is_artist_by(songs@, row, i as int));
                index.insert(id, out.len());
                out.push(row);
            }
        }
        i += 1;
    }
    proof {
        assert forall|a: int, b: int| 0 <= a < b < out@.len() implies (#[trigger] out@[a]).id@ != (
        #[trigger] out@[b]).id@ by {
            assert(index@[out@[a].id@] == a);
            assert(index@[out@[b].id@] == b);
        }
        reveal(artists_complete);
        assert forall|j: int|
            0 <= j < songs@.len() && names_artist(#[trigger] songs@[j]) implies exists|k: int|
            0 <= k < out@.len() && (#[trigger] out@[k]).id@ == artist_key(songs@[j]) by {
            let k = index@[artist_key(songs@[j])];
            assert(out@[k as int].id@ == artist_key(songs@[j]));
        }
    }
    out
}

// ── one scan ───────────────────────────────────────────────────────────

/// A file the scan came by, and its tags if it could be read.
pub struct ScannedFile {
    pub path: String,
    pub tags: Option<Tags>,
}

/// The readable files of a scan.
pub open spec fn readable(files: Seq<ScannedFile>) -> Seq<ScannedFile> {
    files.filter(|f: ScannedFile| f.tags is Some)
}

/// What a scan comes to: one song per readable file, in order, and the tags by
/// song id. Where two files share a path the later tags stay.
pub fn collect_scan(files: Vec<ScannedFile>) -> (r: (Vec<SongUpsert>, TagIndex))
    ensures
        r.0@.len() == readable(files@).len(),
        forall|k: int|
            0 <= k < r.0@.len() ==> is_song_of(
                #[trigger] r.0@[k],
                readable(files@)[k].path@,
                readable(files@)[k].tags->0,
            ),
        r.1@ == tag_map(readable(files@)),
        forall|k: int|
            0 <= k < r.0@.len() ==> {
                let t = readable(files@)[k].tags->0;
                &&& (#[trigger] r.0@[k]).id@ == readable(files@)[k].path@
                &&& r.0@[k].name == t.title
                &&& r.0@[k].artist_name == t.artist
                &&& r.0@[k].album_name == t.album
                &&& r.0@[k].duration_ms == t.duration_ms
                &&& r.0@[k].track_number == t.track_number
                &&& r.0@[k].disc_number == t.disc_number
            },
{
    let mut songs: Vec<SongUpsert> = Vec::new();
    let mut tags = TagIndex::new();
    let ghost all = files@;
    let ghost keep = |f: ScannedFile| f.tags is Some;
    assert(readable(all.take(0)) =~= Seq::empty()) by {
        reveal(Seq::filter);
        assert(all.take(0) =~= Seq::empty());
    }
    for f in it: files
        invariant
            it.seq() == all,
            keep == (|f: ScannedFile| f.tags is Some),
            ({
                let seen = readable(all.take(it.index() as int));
                &&& songs@.len() == seen.len()
                &&& forall|k: int|
                    0 <= k < songs@.len() ==> is_song_of(
                        #[trigger] songs@[k],
                        seen[k].path@,
                        seen[k].tags->0,
                    )
                &&& tags@ == tag_map(seen)
            }),
    {
        let ghost i = it.index() as int;
        let ghost seen = readable(all.take(i));
        let ghost after = readable(all.take(i + 1));
        proof {
            assert(all.take(i + 1) =~= all.take(i).push(f));
            assert(all.take(i + 1).drop_last() =~= all.take(i));
            reveal(Seq::filter);
            if f.tags is Some {
                assert(after =~= seen.push(f));
                assert(after.drop_last() =~= seen);
            } else {
                assert(after =~= seen);
            }
        }
        match f.tags {
            Some(t) => {
                let song = song_from(f.path.as_str(), &t);
                tags.insert(song.id.clone(), t);
                songs.push(song);
            },
            None => {},
        }
    }
    assert(all.take(all.len() as int) =~= all);
    (songs, tags)
}

/// The tags of readable files by path, later ones replacing earlier ones.
pub open spec fn tag_map(files: Seq<ScannedFile>) -> Map<Seq<char>, Tags>
    decreases files.len(),
{
    if files.len() == 0 {
        Map::empty()
    } else {
        tag_map(files.drop_last()).insert(files.last().path@, files.last().tags->0)
    }
}

/// The tags that are held of a path are those of the last file there.
pub proof fn lemma_tags_by_path(files: Seq<ScannedFile>, i: int)
    requires
        0 <= i < files.len(),
        forall|j: int| i < j < files.len() ==> (#[trigger] files[j]).path@ != files[i].path@,
    ensures
        tag_map(files).contains_key(files[i].path@),
        tag_map(files)[files[i].path@] == files[i].tags->0,
    decreases files.len(),
{
    let front = files.drop_last();
    if i < front.len() {
        assert(files[files.len() - 1].path@ != files[i].path@);
        assert forall|j: int| i < j < front.len() implies (#[trigger] front[j]).path@
            != front[i].path@ by {
            assert(files[j].path@ != files[i].path@);
        }
        lemma_tags_by_path(front, i);
    }
}

/// Tags are held of the paths of files alone.
pub proof fn lemma_tags_are_of_files(files: Seq<ScannedFile>, path: Seq<char>)
    requires
        tag_map(files).contains_key(path),
    ensures
        exists|i: int| 0 <= i < files.len() && (#[trigger] files[i]).path@ == path,
    decreases files.len(),
{
    if files.last().path@ == path {
        assert(files[files.len() - 1].path@ == path);
    } else {
        let front = files.drop_last();
        lemma_tags_are_of_files(front, path);
        let i = choose|i: int| 0 <= i < front.len() && (#[trigger] front[i]).path@ == path;
        assert(files[i].path@ == path);
    }
}

/// No album and no artist of the songs is left out.
pub proof fn lemma_none_is_left_out(
    songs: Seq<SongUpsert>,
    albums: Seq<AlbumUpsert>,
    artists: Seq<ArtistUpsert>,
    j: int,
)
    requires
        albums_complete(songs, albums),
        artists_complete(songs, artists),
        0 <= j < songs.len(),
    ensures
        songs[j].album_id is Some ==> exists|k: int|
            0 <= k < albums.len() && (#[trigger] albums[k]).id@ == songs[j].album_id->0@,
        !text::blank(songs[j].artist_name@) ==> exists|k: int|
            0 <= k < artists.len() && (#[trigger] artists[k]).id@ == id_of(
                seq![songs[j].artist_name@],
            ),
{
    reveal(albums_complete);
    reveal(artists_complete);
    if !text::blank(songs[j].artist_name@) {
        assert(names_artist(songs[j]));
    }
}

/// An album row borrows its cover from the first of its songs that has one, and has
/// none where none of them has.
pub proof fn lemma_album_row_cover(
    songs: Seq<SongUpsert>,
    tags: Map<Seq<char>, Tags>,
    row: AlbumUpsert,
    i: int,
)
    requires
        is_album_of(songs, tags, row),
    ensures
        ({
            let has_cover = |j: int|
                songs[j].album_id is Some && songs[j].album_id->0@ == row.id@
                    && songs[j].artwork_url is Some;
            &&& 0 <= i < songs.len() && has_cover(i) && (forall|j: int|
                0 <= j < i ==> !#[trigger] has_cover(j)) ==> row.artwork_url
                == songs[i].artwork_url
            &&& (forall|j: int| 0 <= j < songs.len() ==> !#[trigger] has_cover(j))
                ==> row.artwork_url is None
        }),
        row.artwork_width is None,
        row.artwork_height is None,
{
    let has_cover = |j: int|
        songs[j].album_id is Some && songs[j].album_id->0@ == row.id@ && songs[j].artwork_url is Some;
    let lead = choose|lead: int| is_album_by(songs, tags, row, lead);
    if 0 <= i < songs.len() && has_cover(i) && (forall|j: int|
        0 <= j < i ==> !#[trigger] has_cover(j)) {
        assert forall|j: int| 0 <= j < i implies !((#[trigger] songs[j]).album_id is Some
            && songs[j].album_id->0@ == row.id@ && songs[j].artwork_url is Some) by {
            assert(!has_cover(j));
        }
        lemma_cover_is_the_first(songs, row.id@, i);
    }
    if forall|j: int| 0 <= j < songs.len() ==> !#[trigger] has_cover(j) {
        assert forall|j: int| 0 <= j < songs.len() implies !((#[trigger] songs[j]).album_id is Some
            && songs[j].album_id->0@ == row.id@ && songs[j].artwork_url is Some) by {
            assert(!has_cover(j));
        }
        lemma_no_cover(songs, row.id@);
    }
}

/// An artist is written as the first song that names them writes it.
pub proof fn lemma_artist_row_is_the_first(songs: Seq<SongUpsert>, row: ArtistUpsert)
    requires
        is_artist_of(songs, row),
    ensures
        exists|lead: int|
            0 <= lead < songs.len() && (#[trigger] songs[lead]).artist_name == row.name && (
            forall|j: int|
                0 <= j < lead && !text::blank((#[trigger] songs[j]).artist_name@) ==> id_of(
                    seq![songs[j].artist_name@],
                ) != row.id@),
{
    let lead = choose|lead: int| is_artist_by(songs, row, lead);
    assert(songs[lead].artist_name == row.name);
    assert forall|j: int| 0 <= j < lead && !text::blank((#[trigger] songs[j]).artist_name@) implies id_of(
        seq![songs[j].artist_name@],
    ) != row.id@ by {
        assert(names_artist(songs[j]));
    }
}

/// What is read of a folder are the files whose tags could be read, in order.
pub proof fn lemma_what_is_readable(files: Seq<ScannedFile>, f: ScannedFile)
    ensures
        readable(Seq::empty()).len() == 0,
        f.tags is Some ==> readable(files.push(f)) == readable(files).push(f),
        f.tags is None ==> readable(files.push(f)) == readable(files),
{
    reveal(Seq::filter);
    assert(files.push(f).drop_last() =~= files);
}

} // verus!
