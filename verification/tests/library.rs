use capsule::db::{
    artwork_from_row, artwork_with_side, default_db_path, first_pending, read_count,
    read_duration, search_pattern, source_db_path, stored_duration, AlbumUpsert, ArtistUpsert,
    DbError, LibraryCounts, PlaylistUpsert, SongUpsert, MAX_ARTWORK,
};
use capsule::local::{
    album_id, albums_from, artist_id, artists_from, artwork_ref, collect_scan, is_audio,
    is_audio_extension, song_from, tags_from, title_fallback, title_or_unknown, RawTags,
    ScannedFile, TagIndex, Tags,
};
use capsule::settings::Source;

fn tags(title: &str, artist: &str, album_artist: &str, album: &str) -> Tags {
    Tags {
        title: title.into(),
        artist: artist.into(),
        album_artist: album_artist.into(),
        album: album.into(),
        track_number: Some(1),
        disc_number: None,
        duration_ms: 180_000,
        has_picture: false,
    }
}

#[test]
fn recognises_the_formats_symphonia_decodes() {
    assert!(is_audio("a.flac"));
    assert!(is_audio("a.MP3"), "extension match is case-insensitive");
    assert!(is_audio("a.m4a"));
    assert!(!is_audio("cover.jpg"));
    assert!(!is_audio("notes.txt"));
    assert!(!is_audio("no-extension"));
}

#[test]
fn only_the_extension_decides() {
    assert!(is_audio("/music/a.b/c.d.wave"));
    assert!(!is_audio("/music.flac/readme"));
    assert!(!is_audio("/music/.flac"));
    assert!(is_audio("/music/a.flac/"), "what ends the path names nothing");
    assert!(is_audio("/music/a.flac//./"));
    assert!(is_audio_extension(Some("OPUS".into())));
    assert!(!is_audio_extension(None));
}

#[test]
fn a_compilation_stays_one_album() {
    // Grouping on the track artist would split this into three albums.
    let a = song_from("/m/1.flac", &tags("One", "Bladee", "Various", "Comp"));
    let b = song_from("/m/2.flac", &tags("Two", "Ecco2k", "Various", "Comp"));
    let c = song_from("/m/3.flac", &tags("Three", "Thaiboy", "Various", "Comp"));
    assert_eq!(a.album_id, b.album_id);
    assert_eq!(b.album_id, c.album_id);
}

#[test]
fn same_album_name_by_different_artists_stays_separate() {
    let a = song_from("/m/a.flac", &tags("x", "A", "A", "Greatest Hits"));
    let b = song_from("/m/b.flac", &tags("y", "B", "B", "Greatest Hits"));
    assert_ne!(a.album_id, b.album_id);
}

#[test]
fn ids_are_stable_across_rescans() {
    let first = album_id("Bladee", "333");
    let second = album_id("bladee", "333");
    assert_eq!(first, second, "case should not create a second album");
}

#[test]
fn ids_are_the_heads_of_digests() {
    // The digest of "abc" and a zero byte.
    assert_eq!(artist_id("ABC"), "dc1114cd074914bd");
    assert_eq!(album_id("a", "b").len(), 16);
    assert_ne!(album_id("a", "b"), album_id("ab", ""));
    assert_ne!(album_id("ab", "c"), album_id("a", "bc"));
}

#[test]
fn the_path_is_the_track_id() {
    let s = song_from("/m/x.flac", &tags("t", "a", "a", "al"));
    assert_eq!(s.id, "/m/x.flac");
}

#[test]
fn artwork_is_referenced_only_when_the_file_carries_a_picture() {
    let mut t = tags("t", "a", "a", "al");
    assert_eq!(song_from("/m/x.flac", &t).artwork_url, None);
    t.has_picture = true;
    assert_eq!(song_from("/m/x.flac", &t).artwork_url.as_deref(), Some("local:/m/x.flac"));
    assert_eq!(artwork_ref("/m/x.flac"), "local:/m/x.flac");
}

#[test]
fn an_untagged_file_falls_back_to_its_filename() {
    assert_eq!(title_fallback("/m/01 - Cambaz.flac"), "01 - Cambaz");
    assert_eq!(title_fallback("/m/.flac"), ".flac");
    assert_eq!(title_fallback("/m/x.flac/"), "x");
    assert_eq!(title_fallback("x.flac/./"), "x");
}

#[test]
fn a_file_without_a_name_is_unknown() {
    for path in ["..", ".", "", "/", "/m/..", "./."] {
        assert_eq!(title_fallback(path), "Unknown", "{path}");
        assert!(!is_audio(path), "{path}");
    }
    assert_eq!(title_or_unknown(None), "Unknown");
}

#[test]
fn a_path_of_another_platform_falls_back_to_one_stem_or_the_other() {
    for (path, whole, tail) in [
        (r"C:\Music\a.b\x.flac", r"C:\Music\a.b\x", "x"),
        ("C:x.flac", "C:x", "x"),
        (r"C:\Music\x.flac\", r"C:\Music\x", "x"),
        (r"d\foo:bar.mp3", r"d\foo:bar", "foo:bar"),
        (r"\\nas\music\x.flac", r"\\nas\music\x", "x"),
    ] {
        let title = title_fallback(path);
        assert!(title == whole || title == tail, "{path}: {title}");
        let raw = RawTags {
            title: None,
            artist: None,
            album_artist: None,
            album: None,
            track_number: None,
            disc_number: None,
            duration_ms: 0,
            pictures: 0,
        };
        assert_eq!(tags_from(raw, path).title, title);
    }
}

#[test]
fn albums_count_their_tracks_and_borrow_the_first_cover() {
    let mut with_art = tags("Two", "A", "A", "Al");
    with_art.has_picture = true;
    let songs = vec![
        song_from("/m/1.flac", &tags("One", "A", "A", "Al")),
        song_from("/m/2.flac", &with_art),
    ];
    let albums = albums_from(&songs, &TagIndex::new());
    assert_eq!(albums.len(), 1);
    assert_eq!(albums[0].track_count, 2);
    assert_eq!(
        albums[0].artwork_url.as_deref(),
        Some("local:/m/2.flac"),
        "an album whose art is only on a later track still gets a cover"
    );
}

#[test]
fn albums_are_credited_to_their_album_artist() {
    let t = tags("One", "Bladee", "Various", "Comp");
    let songs = vec![song_from("/m/1.flac", &t)];
    assert_eq!(albums_from(&songs, &TagIndex::new())[0].artist_name, "Bladee");
    let mut index = TagIndex::new();
    index.insert("/m/1.flac".into(), t);
    assert_eq!(albums_from(&songs, &index)[0].artist_name, "Various");
    assert_eq!(index.get("/m/1.flac").unwrap().title, "One");
    assert!(index.get("/m/2.flac").is_none());
}

#[test]
fn artists_are_deduplicated_and_blanks_dropped() {
    let songs = vec![
        song_from("/m/1.flac", &tags("a", "Bladee", "Bladee", "X")),
        song_from("/m/2.flac", &tags("b", "Bladee", "Bladee", "Y")),
        song_from("/m/3.flac", &tags("c", "", "", "Z")),
    ];
    let artists = artists_from(&songs);
    assert_eq!(artists.len(), 1);
    assert_eq!(artists[0].name, "Bladee");
}

#[test]
fn absent_tags_are_filled_in() {
    let raw = RawTags {
        title: Some("  ".into()),
        artist: Some(" Bladee ".into()),
        album_artist: None,
        album: None,
        track_number: Some("3/12".into()),
        disc_number: Some("one".into()),
        duration_ms: 5,
        pictures: 1,
    };
    let t = tags_from(raw, "/m/01 - Cambaz.flac");
    assert_eq!(t.title, "01 - Cambaz");
    assert_eq!(t.artist, "Bladee");
    assert_eq!(t.album_artist, "Bladee", "the track artist stands in");
    assert_eq!(t.album, "Unknown Album");
    assert_eq!(t.track_number, Some(3));
    assert_eq!(t.disc_number, None);
    assert!(t.has_picture);

    let none = RawTags {
        title: None,
        artist: None,
        album_artist: None,
        album: None,
        track_number: Some(" -7 ".into()),
        disc_number: None,
        duration_ms: 0,
        pictures: 0,
    };
    let t = tags_from(none, "/m/x.ogg");
    assert_eq!(t.artist, "Unknown Artist");
    assert_eq!(t.album_artist, "Unknown Artist");
    assert_eq!(t.track_number, Some(-7));
    assert!(!t.has_picture);
}

#[test]
fn unreadable_files_are_left_out_of_a_scan() {
    let files = vec![
        ScannedFile { path: "/m/1.flac".into(), tags: Some(tags("One", "A", "A", "Al")) },
        ScannedFile { path: "/m/2.flac".into(), tags: None },
        ScannedFile { path: "/m/3.flac".into(), tags: Some(tags("Three", "A", "A", "Al")) },
    ];
    let (songs, index) = collect_scan(files);
    assert_eq!(songs.len(), 2);
    assert_eq!(songs[1].id, "/m/3.flac");
    assert!(index.get("/m/2.flac").is_none());
    assert_eq!(index.get("/m/3.flac").unwrap().title, "Three");
}

// ── the mirror ─────────────────────────────────────────────────────────

#[test]
fn env_override_wins_for_db_path() {
    let p = default_db_path(Some(r"C:\tmp\custom.sqlite3".into()), Some(r"C:\appdata".into()));
    assert_eq!(p.unwrap(), r"C:\tmp\custom.sqlite3");
}

#[test]
fn without_an_override_the_library_is_in_the_data_directory() {
    assert!(default_db_path(Some(" ".into()), Some("/data".into()))
        .unwrap()
        .ends_with("library.sqlite3"));
    assert!(matches!(default_db_path(None, None), Err(DbError::NoDataDir)));
}

#[test]
fn each_source_has_a_database_of_its_own() {
    let all = [Source::Apple, Source::Spotify, Source::Navidrome, Source::Local];
    let paths: Vec<String> =
        all.iter().map(|s| source_db_path(None, Some("/data".into()), *s).unwrap()).collect();
    for (i, a) in paths.iter().enumerate() {
        assert!(a.ends_with(".sqlite3"), "{a}");
        assert!(paths.iter().skip(i + 1).all(|b| a != b), "{a}");
    }
    assert_eq!(paths[0], default_db_path(None, Some("/data".into())).unwrap());
    assert!(paths[2].ends_with("library-navidrome.sqlite3"));
    for s in all {
        let p = source_db_path(Some("/x.db".into()), Some("/data".into()), s);
        assert_eq!(p.unwrap(), "/x.db", "the override is for every source");
        assert!(matches!(source_db_path(None, None, s), Err(DbError::NoDataDir)));
    }
}

#[test]
fn artwork_carries_its_true_maximum_size() {
    let art = artwork_from_row(Some("https://ex/{w}x{h}.jpg".into()), Some(1200), Some(1200))
        .unwrap();
    // Stored as 1200 square, so 3000 must clamp down rather than upscale.
    assert_eq!(art.max_side, Some(1200));
    assert_eq!(art.clamp(3000), 1200);
    assert_eq!(art.clamp(56), 56);
}

#[test]
fn missing_dimensions_leave_max_side_unknown() {
    let art = artwork_from_row(Some("https://ex/{w}x{h}.jpg".into()), None, None).unwrap();
    assert_eq!(art.max_side, None);
    assert_eq!(art.best_size(), MAX_ARTWORK);
}

#[test]
fn rows_without_a_url_have_no_artwork() {
    assert!(artwork_from_row(None, Some(5), Some(5)).is_none());
    assert!(artwork_from_row(Some(String::new()), Some(5), Some(5)).is_none());
    assert_eq!(artwork_from_row(Some("t".into()), Some(5), Some(9)).unwrap().max_side, Some(9));
    assert_eq!(artwork_with_side("t".into(), -3).max_side, None);
}

#[test]
fn search_escapes_like_wildcards() {
    // A bare "%" would otherwise match every row.
    assert_eq!(search_pattern("%"), "%\\%%");
    assert_eq!(search_pattern("100%"), "%100\\%%");
    assert_eq!(search_pattern("a_b\\c"), "%a\\_b\\\\c%");
}

#[test]
fn lengths_survive_being_stored() {
    assert_eq!(read_duration(stored_duration(200_000)), 200_000);
    assert_eq!(read_duration(-5), 0);
    assert_eq!(read_count(2), 2);
}

#[test]
fn only_missing_migrations_are_applied() {
    assert_eq!(first_pending(0, 4), Some(0));
    assert_eq!(first_pending(3, 4), Some(3));
    assert_eq!(first_pending(4, 4), None);
    assert_eq!(first_pending(9, 4), None);
}

#[test]
fn fresh_rows_are_empty() {
    assert_eq!(SongUpsert::default().duration_ms, 0);
    assert_eq!(AlbumUpsert::default().track_count, 0);
    assert_eq!(ArtistUpsert::default().name, "");
    assert!(!PlaylistUpsert::default().can_edit);
    assert_eq!(LibraryCounts::default().songs, 0);
    assert_eq!(DbError::Sqlite("x".into()).message(), "sqlite: x");
    assert_eq!(DbError::NoDataDir.message(), "could not resolve a data directory");
    assert_eq!(DbError::Io("x".into()).message(), "io: x");
}

#[test]
fn files_on_a_drive_are_told_by_their_extension() {
    assert!(is_audio(r"C:\Music\a.b\c.FLAC"));
    assert!(!is_audio(r"C:\Music\cover.jpg"));
    assert!(is_audio("D:/Music/x.opus"));
}
