use capsule::subsonic::{
    album_from, artists_from, auth_query, auth_token, cover_art_ref, envelope_verdict,
    is_insecure, normalize_base_url, parse_envelope, playlist_from, playlist_track_ids,
    random_salt, salt_from, song_from, song_rows, AlbumOutcome, AlbumStep, AlbumWalk, ArtistIndex,
    ArtistIndexEntry, Client, Credentials, SongStep, SongWalk, SubsonicError, WireAlbum,
    WireAlbumDetail, WireArtist, WirePlaylist, WirePlaylistDetail, WirePlaylistEntry, WireSong,
};
use serde_json::Value;

/// The payload of an envelope, read as JSON.
fn payload(body: &str, key: &str) -> Value {
    serde_json::from_str(&parse_envelope(body, key).unwrap()).unwrap()
}

fn text(v: &Value, k: &str) -> Option<String> {
    v.get(k).and_then(|x| x.as_str()).map(|s| s.to_string())
}

fn items(v: &Value, k: &str) -> Vec<Value> {
    v.get(k).and_then(|x| x.as_array()).cloned().unwrap_or_default()
}

fn artist_index(v: &Value) -> ArtistIndex {
    ArtistIndex {
        index: items(v, "index")
            .iter()
            .map(|e| ArtistIndexEntry {
                artist: items(e, "artist")
                    .iter()
                    .map(|a| WireArtist {
                        id: text(a, "id").unwrap_or_default(),
                        name: text(a, "name").unwrap_or_default(),
                        cover_art: text(a, "coverArt"),
                    })
                    .collect(),
            })
            .collect(),
    }
}

fn wire_album(a: &Value) -> WireAlbum {
    WireAlbum {
        id: text(a, "id").unwrap_or_default(),
        name: text(a, "name").unwrap_or_default(),
        artist: text(a, "artist").unwrap_or_default(),
        song_count: a.get("songCount").and_then(|x| x.as_u64()).unwrap_or(0) as u32,
        year: a.get("year").and_then(|x| x.as_i64()),
        cover_art: text(a, "coverArt"),
        created: text(a, "created"),
    }
}

fn wire_song(s: &Value) -> WireSong {
    WireSong {
        id: text(s, "id").unwrap_or_default(),
        title: text(s, "title").unwrap_or_default(),
        artist: text(s, "artist").unwrap_or_default(),
        album: text(s, "album").unwrap_or_default(),
        duration: s.get("duration").and_then(|x| x.as_u64()),
        track: s.get("track").and_then(|x| x.as_i64()),
        disc_number: s.get("discNumber").and_then(|x| x.as_i64()),
        cover_art: text(s, "coverArt"),
        created: text(s, "created"),
    }
}

fn wire_detail(v: &Value) -> WireAlbumDetail {
    WireAlbumDetail {
        id: text(v, "id").unwrap_or_default(),
        song: items(v, "song").iter().map(wire_song).collect(),
    }
}

fn wire_playlist(p: &Value) -> WirePlaylist {
    WirePlaylist {
        id: text(p, "id").unwrap_or_default(),
        name: text(p, "name").unwrap_or_default(),
        comment: text(p, "comment"),
        cover_art: text(p, "coverArt"),
    }
}

fn playlist_detail(v: &Value) -> WirePlaylistDetail {
    WirePlaylistDetail {
        id: text(v, "id").unwrap_or_default(),
        entry: items(v, "entry")
            .iter()
            .map(|e| WirePlaylistEntry { id: text(e, "id").unwrap_or_default() })
            .collect(),
    }
}

#[test]
fn parses_an_ok_envelope() {
    let body = r#"{"subsonic-response":{"status":"ok","version":"1.16.1"}}"#;
    assert!(payload(body, "").is_object());
}

#[test]
fn extracts_a_keyed_payload() {
    let body = r#"{"subsonic-response":{"status":"ok","version":"1.16.1",
                   "artists":{"index":[]}}}"#;
    assert_eq!(artist_index(&payload(body, "artists")).index.len(), 0);
    assert!(payload(body, "artists").get("index").is_some());
}

#[test]
fn wrong_password_maps_to_unauthorized() {
    let body = r#"{"subsonic-response":{"status":"failed","version":"1.16.1",
                   "error":{"code":40,"message":"Wrong username or password"}}}"#;
    let err = parse_envelope(body, "").unwrap_err();
    assert!(matches!(err, SubsonicError::Unauthorized), "got {err:?}");
}

#[test]
fn ldap_token_rejection_also_maps_to_unauthorized() {
    let body = r#"{"subsonic-response":{"status":"failed","version":"1.16.1",
                   "error":{"code":41,"message":"Token auth not supported"}}}"#;
    assert!(matches!(parse_envelope(body, "").unwrap_err(), SubsonicError::Unauthorized));
}

#[test]
fn other_error_codes_keep_code_and_message() {
    let body = r#"{"subsonic-response":{"status":"failed","version":"1.16.1",
                   "error":{"code":70,"message":"Data not found"}}}"#;
    match parse_envelope(body, "").unwrap_err() {
        SubsonicError::Api { code, message } => {
            assert_eq!(code, 70);
            assert_eq!(message, "Data not found");
        }
        other => panic!("expected Api, got {other:?}"),
    }
}

#[test]
fn a_failure_without_details_is_still_a_failure() {
    let body = r#"{"subsonic-response":{"status":"failed"}}"#;
    match parse_envelope(body, "artists").unwrap_err() {
        SubsonicError::Api { code, message } => {
            assert_eq!(code, 0);
            assert_eq!(message, "unknown error");
        }
        other => panic!("expected Api, got {other:?}"),
    }
    assert_eq!(
        envelope_verdict(Some("failed".into()), Some(4294967336), None, None),
        Err(SubsonicError::Unauthorized),
        "a code wider than the field keeps its low bits"
    );
    assert_eq!(
        envelope_verdict(Some("ok".into()), Some(40), None, Some("[1]".into())),
        Ok("[1]".to_string())
    );
    assert_eq!(envelope_verdict(None, None, None, Some("null".into())), Ok("{}".to_string()));
}

#[test]
fn garbage_is_malformed_not_a_panic() {
    assert!(matches!(parse_envelope("not json", "").unwrap_err(), SubsonicError::Malformed(_)));
    assert!(matches!(parse_envelope("{}", "").unwrap_err(), SubsonicError::Malformed(_)));
    assert_eq!(
        parse_envelope("{}", "").unwrap_err().message(),
        "server response was not valid subsonic json: missing subsonic-response"
    );
}

#[test]
fn maps_an_artist_index_to_upserts() {
    let body = r#"{"subsonic-response":{"status":"ok","version":"1.16.1","artists":{
        "index":[
          {"name":"B","artist":[{"id":"ar-1","name":"Bladee","albumCount":3}]},
          {"name":"E","artist":[{"id":"ar-2","name":"Ecco2k","coverArt":"ar-2"}]}
        ]}}}"#;
    let rows = artists_from(artist_index(&payload(body, "artists")));
    assert_eq!(rows.len(), 2);
    assert_eq!(rows[0].id, "ar-1");
    assert_eq!(rows[0].name, "Bladee");
    assert_eq!(rows[0].artwork_url, None, "no coverArt means no artwork");
    assert_eq!(rows[1].artwork_url.as_deref(), Some("subsonic:ar-2"));
}

#[test]
fn maps_an_album_list_to_upserts() {
    let body = r#"{"subsonic-response":{"status":"ok","version":"1.16.1","albumList2":{
        "album":[{"id":"al-1","name":"333","artist":"Bladee","songCount":12,
                  "year":2020,"coverArt":"al-1","created":"2024-01-05T10:00:00Z"}]}}}"#;
    let rows: Vec<_> = items(&payload(body, "albumList2"), "album")
        .iter()
        .map(|a| album_from(wire_album(a)))
        .collect();
    assert_eq!(rows.len(), 1);
    assert_eq!(rows[0].id, "al-1");
    assert_eq!(rows[0].name, "333");
    assert_eq!(rows[0].artist_name, "Bladee");
    assert_eq!(rows[0].track_count, 12);
    assert_eq!(rows[0].release_date.as_deref(), Some("2020"));
    assert_eq!(rows[0].artwork_url.as_deref(), Some("subsonic:al-1"));
    assert_eq!(rows[0].added_at.as_deref(), Some("2024-01-05T10:00:00Z"));
    assert_eq!(rows[0].catalog_id, None, "catalog_id is an Apple concept");
    assert_eq!(rows[0].artwork_width, None, "subsonic does not report dimensions");
}

#[test]
fn album_missing_optional_fields_still_maps() {
    let body = r#"{"subsonic-response":{"status":"ok","version":"1.16.1","albumList2":{
        "album":[{"id":"al-2","name":"Untitled"}]}}}"#;
    let rows: Vec<_> = items(&payload(body, "albumList2"), "album")
        .iter()
        .map(|a| album_from(wire_album(a)))
        .collect();
    assert_eq!(rows[0].artist_name, "");
    assert_eq!(rows[0].track_count, 0);
    assert_eq!(rows[0].release_date, None);
    assert_eq!(rows[0].artwork_url, None);
}

#[test]
fn maps_album_songs_to_upserts() {
    let body = r#"{"subsonic-response":{"status":"ok","version":"1.16.1","album":{
        "id":"al-1","name":"333","artist":"Bladee",
        "song":[{"id":"tr-1","title":"Be Nice 2 Me","artist":"Bladee","album":"333",
                 "duration":184,"track":3,"discNumber":1,"coverArt":"al-1",
                 "created":"2024-01-05T10:00:00Z"}]}}}"#;
    let album = wire_detail(&payload(body, "album"));
    let rows: Vec<_> = album.song.into_iter().map(|s| song_from(s, "al-1")).collect();
    assert_eq!(rows.len(), 1);
    assert_eq!(rows[0].id, "tr-1");
    assert_eq!(rows[0].name, "Be Nice 2 Me");
    assert_eq!(rows[0].album_id.as_deref(), Some("al-1"));
    assert_eq!(rows[0].duration_ms, 184_000, "subsonic reports seconds");
    assert_eq!(rows[0].track_number, Some(3));
    assert_eq!(rows[0].disc_number, Some(1));
    assert_eq!(rows[0].artwork_url.as_deref(), Some("subsonic:al-1"));
}

#[test]
fn song_without_duration_is_zero_not_an_error() {
    let body = r#"{"subsonic-response":{"status":"ok","version":"1.16.1","album":{
        "song":[{"id":"tr-2","title":"Untitled"}]}}}"#;
    let album = wire_detail(&payload(body, "album"));
    let rows: Vec<_> = album.song.into_iter().map(|s| song_from(s, "al-9")).collect();
    assert_eq!(rows[0].duration_ms, 0);
    assert_eq!(rows[0].track_number, None);
}

#[test]
fn an_absurd_duration_does_not_overflow() {
    let body = r#"{"subsonic-response":{"status":"ok","album":{
        "song":[{"id":"tr-2","duration":18446744073709551615}]}}}"#;
    let album = wire_detail(&payload(body, "album"));
    let rows = song_rows(album.song, "al-9");
    assert_eq!(rows[0].duration_ms, u64::MAX);
    assert_eq!(rows[0].album_id.as_deref(), Some("al-9"));
}

#[test]
fn cover_art_ref_is_a_scheme_not_a_url() {
    assert_eq!(cover_art_ref(Some("al-1".into())).as_deref(), Some("subsonic:al-1"));
    assert_eq!(cover_art_ref(None), None);
    assert_eq!(cover_art_ref(Some("  ".into())), None);
}

#[test]
fn maps_playlists_to_upserts() {
    let body = r#"{"subsonic-response":{"status":"ok","version":"1.16.1","playlists":{
        "playlist":[{"id":"pl-1","name":"night","comment":"for driving",
                     "songCount":9,"coverArt":"pl-1"}]}}}"#;
    let rows: Vec<_> = items(&payload(body, "playlists"), "playlist")
        .iter()
        .map(|p| playlist_from(wire_playlist(p)))
        .collect();
    assert_eq!(rows[0].id, "pl-1");
    assert_eq!(rows[0].name, "night");
    assert_eq!(rows[0].description.as_deref(), Some("for driving"));
    assert_eq!(rows[0].artwork_url.as_deref(), Some("subsonic:pl-1"));
    assert!(!rows[0].can_edit, "milestone 1 is read-only");
}

#[test]
fn extracts_playlist_track_ids_in_order() {
    let body = r#"{"subsonic-response":{"status":"ok","version":"1.16.1","playlist":{
        "id":"pl-1","entry":[{"id":"tr-3"},{"id":"tr-1"},{"id":"tr-2"}]}}}"#;
    let ids = playlist_track_ids(&playlist_detail(&payload(body, "playlist")));
    assert_eq!(ids, vec!["tr-3", "tr-1", "tr-2"], "playlist order is meaningful");
}

#[test]
fn empty_playlist_has_no_entries() {
    let body =
        r#"{"subsonic-response":{"status":"ok","version":"1.16.1","playlist":{"id":"pl-2"}}}"#;
    let detail = playlist_detail(&payload(body, "playlist"));
    assert!(detail.entry.is_empty());
    assert!(playlist_track_ids(&detail).is_empty());
}

fn client(url: &str, user: &str) -> Client {
    match Client::new(
        Credentials { base_url: url.into(), username: user.into(), password: "sesame".into() },
        7,
    ) {
        Ok(c) => c,
        Err(e) => panic!("{}", e.message()),
    }
}

#[test]
fn signed_url_encodes_and_targets_rest_endpoint() {
    let c = client("https://m.example.com/", "de niz");
    let url = c.signed_url("getAlbum", &vec![("id".into(), "al 1".into())]);
    assert!(url.starts_with("https://m.example.com/rest/getAlbum.view?"), "{url}");
    assert!(url.contains("u=de%20niz"), "{url}");
    assert!(url.contains("id=al%201"), "{url}");
    assert!(!url.contains("sesame"), "password must never appear in a url");
}

#[test]
fn a_signed_url_is_fixed_by_its_salt() {
    let c = client("m.example.com", "deniz");
    assert_eq!(
        c.signed_url_with("getAlbum", &vec![("id".into(), "a&b".into())], "c19b2d"),
        "https://m.example.com/rest/getAlbum.view?u=deniz\
         &t=26719a1196d2a940705a59634eb18eab&s=c19b2d&v=1.16.1&c=capsule&f=json&id=a%26b"
    );
    assert_eq!(c.base_url(), "https://m.example.com");
    assert_eq!(c.clone_for_artwork().base_url(), c.base_url());
    assert!(c.cover_art_url("al-1", 300).contains("&id=al-1&size=300"));
}

#[test]
fn stream_url_points_at_the_stream_endpoint_and_hides_the_password() {
    let c = client("https://m.example.com", "deniz");
    let url = c.stream_url("tr-1");
    assert!(url.starts_with("https://m.example.com/rest/stream.view?"), "{url}");
    assert!(url.contains("id=tr-1"), "{url}");
    assert!(!url.contains("sesame"));
}

#[test]
fn client_rejects_an_unusable_url_before_touching_the_network() {
    assert!(Client::new(
        Credentials {
            base_url: "   ".into(),
            username: "deniz".into(),
            password: "sesame".into(),
        },
        1
    )
    .is_err());
}

#[test]
fn a_missing_payload_key_is_an_empty_default() {
    let body = r#"{"subsonic-response":{"status":"ok","version":"1.16.1"}}"#;
    assert_eq!(parse_envelope(body, "artists").unwrap(), "{}");
    assert_eq!(artist_index(&payload(body, "artists")).index.len(), 0);
}

#[test]
fn auth_token_matches_the_subsonic_reference_fixture() {
    assert_eq!(auth_token("sesame", "c19b2d"), "26719a1196d2a940705a59634eb18eab");
}

#[test]
fn auth_query_carries_the_required_parameters() {
    let q = auth_query("deniz", "sesame", "c19b2d");
    let get = |k: &str| q.iter().find(|(a, _)| a == k).map(|(_, v)| v.clone());
    assert_eq!(get("u").as_deref(), Some("deniz"));
    assert_eq!(get("s").as_deref(), Some("c19b2d"));
    assert_eq!(get("t").as_deref(), Some("26719a1196d2a940705a59634eb18eab"));
    assert_eq!(get("v").as_deref(), Some("1.16.1"));
    assert_eq!(get("c").as_deref(), Some("capsule"));
    assert_eq!(get("f").as_deref(), Some("json"));
    assert!(get("p").is_none(), "plaintext password must never be sent");
}

#[test]
fn base_url_normalisation() {
    assert_eq!(normalize_base_url("https://m.example.com/").unwrap(), "https://m.example.com");
    assert_eq!(normalize_base_url("https://m.example.com").unwrap(), "https://m.example.com");
    assert_eq!(normalize_base_url("  https://m.example.com  ").unwrap(), "https://m.example.com");
    assert_eq!(normalize_base_url("https://ex.com/music/").unwrap(), "https://ex.com/music");
    assert_eq!(normalize_base_url("m.example.com").unwrap(), "https://m.example.com");
}

#[test]
fn normalising_twice_changes_nothing() {
    for raw in ["m.example.com//", "http://a/b/", "https://a"] {
        let once = normalize_base_url(raw).unwrap();
        assert_eq!(normalize_base_url(&once).unwrap(), once);
    }
}

#[test]
fn base_url_rejects_empty() {
    assert!(matches!(normalize_base_url("   "), Err(SubsonicError::InvalidUrl(_))));
}

#[test]
fn is_insecure_detects_plain_http() {
    assert!(is_insecure("http://m.example.com"));
    assert!(!is_insecure("https://m.example.com"));
}

#[test]
fn salts_differ_between_calls() {
    assert_ne!(random_salt(1), random_salt(1));
}

#[test]
fn a_salt_is_the_head_of_a_digest() {
    // The digest of "12".
    assert_eq!(salt_from(1, 2), "c20ad4d76fe9");
}

#[test]
fn errors_read_as_sentences() {
    assert_eq!(SubsonicError::Http("timed out".into()).message(), "http: timed out");
    assert_eq!(SubsonicError::Unauthorized.message(), "wrong username or password");
    assert_eq!(
        SubsonicError::InvalidUrl("empty".into()).message(),
        "server url is not usable: empty"
    );
    assert_eq!(
        SubsonicError::Api { code: -70, message: "x".into() }.message(),
        "server returned error -70: x"
    );
}

#[test]
fn a_short_page_ends_the_album_walk() {
    let mut w = AlbumWalk::new();
    assert_eq!(
        w.request(),
        vec![
            ("type".to_string(), "alphabeticalByName".to_string()),
            ("size".to_string(), "500".to_string()),
            ("offset".to_string(), "0".to_string()),
        ]
    );
    assert_eq!(w.advance(500), AlbumStep::More);
    assert_eq!(w.request()[2].1, "500");
    assert_eq!(w.advance(499), AlbumStep::Finished);

    let mut endless = AlbumWalk::new();
    for _ in 0..499 {
        assert_eq!(endless.advance(500), AlbumStep::More);
    }
    assert_eq!(endless.advance(500), AlbumStep::Truncated);
}

fn fetched(id: &str, songs: usize) -> AlbumOutcome {
    let song = |n: usize| {
        wire_song(&serde_json::from_str(&format!("{{\"id\":\"{id}-{n}\"}}")).unwrap())
    };
    AlbumOutcome::Fetched { album_id: id.into(), songs: (0..songs).map(song).collect() }
}

#[test]
fn albums_are_fetched_eight_at_a_time() {
    let ids: Vec<String> = (0..10).map(|i| format!("al-{i}")).collect();
    let (mut walk, started) = SongWalk::begin(ids);
    assert_eq!(started.len(), 8);
    assert!(!walk.is_done());

    match walk.on_album(fetched("al-0", 2)) {
        SongStep::Continue { rows, start } => {
            assert_eq!(rows.len(), 2);
            assert_eq!(rows[1].id, "al-0-1");
            assert_eq!(start.as_deref(), Some("al-8"));
        }
        SongStep::Abort => panic!("nothing failed"),
    }
    match walk.on_album(AlbumOutcome::Failed) {
        SongStep::Continue { rows, start } => {
            assert!(rows.is_empty());
            assert_eq!(start.as_deref(), Some("al-9"));
        }
        SongStep::Abort => panic!("one album is skipped, not fatal"),
    }
    for _ in 0..8 {
        assert!(!walk.is_done());
        match walk.on_album(fetched("x", 0)) {
            SongStep::Continue { start, .. } => assert!(start.is_none()),
            SongStep::Abort => panic!("nothing failed"),
        }
    }
    assert!(walk.is_done());
    assert_eq!(walk.report().skipped_albums, 1);
}

#[test]
fn a_walk_asks_for_every_album_once() {
    for n in [0, 3, 8, 25] {
        let ids: Vec<String> = (0..n).map(|i| format!("al-{i}")).collect();
        let (mut walk, mut asked) = SongWalk::begin(ids.clone());
        let (mut heard, mut failed) = (0, 0);
        while !walk.is_done() {
            let outcome = if heard % 3 == 1 {
                failed += 1;
                AlbumOutcome::Failed
            } else {
                fetched("x", 1)
            };
            heard += 1;
            match walk.on_album(outcome) {
                SongStep::Continue { start, .. } => asked.extend(start),
                SongStep::Abort => panic!("no login was rejected"),
            }
        }
        assert_eq!(asked, ids);
        assert_eq!(heard, n);
        assert_eq!(walk.report().skipped_albums, failed);
    }
}

#[test]
fn a_short_page_ends_the_albums_wherever_it_stands() {
    let mut walk = AlbumWalk { offset: u32::MAX, pages: 3 };
    assert_eq!(walk.advance(499), AlbumStep::Finished);
    assert_eq!((walk.offset, walk.pages), (u32::MAX, 4));
}

#[test]
fn a_rejected_login_aborts_the_song_walk() {
    let (mut walk, _) = SongWalk::begin(vec!["a".into(), "b".into()]);
    assert!(matches!(walk.on_album(AlbumOutcome::Unauthorized), SongStep::Abort));
}
