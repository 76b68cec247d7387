use capsule::api::{
    album_from, album_track_rows, album_tracks_path, albums_path, artist_from, artists_path,
    playlist_from, playlist_tracks_path, playlists_path, refused, request_url, song_from,
    song_rows, songs_path, truncate, AlbumAttrs, ApiError, ArtistAttrs, Artwork, Client,
    Description, Item, Page, PageWalk, PlayParams, PlaylistAttrs, Reply, Retry, SongAttrs,
};
use capsule::auth::Tokens;
use serde_json::Value;

const SONGS: &str = r#"{
  "next": "/v1/me/library/songs?offset=100",
  "data": [
    {
      "id": "i.abc123",
      "type": "library-songs",
      "attributes": {
        "name": "TL;DR",
        "artistName": "Bladee, Ecco2k & Thaiboy Digital",
        "albumName": "TL;DR - Single",
        "durationInMillis": 191000,
        "trackNumber": 1,
        "discNumber": 1,
        "artwork": { "url": "https://is1.mzstatic.com/image/{w}x{h}bb.jpg" },
        "playParams": { "id": "i.abc123", "kind": "song", "isLibrary": true, "catalogId": "1550924665" }
      }
    }
  ]
}"#;

fn text(v: &Value, k: &str) -> Option<String> {
    v.get(k).and_then(|x| x.as_str()).map(|s| s.to_string())
}

fn whole(v: &Value, k: &str) -> Option<i64> {
    v.get(k).and_then(|x| x.as_i64())
}

fn artwork(v: &Value) -> Option<Artwork> {
    v.get("artwork").map(|a| Artwork {
        url: text(a, "url"),
        width: whole(a, "width"),
        height: whole(a, "height"),
    })
}

fn play_params(v: &Value) -> Option<PlayParams> {
    v.get("playParams").map(|p| PlayParams { catalog_id: text(p, "catalogId") })
}

fn page<A>(json: &str, read: impl Fn(&Value) -> A) -> Page<Item<A>> {
    let root: Value = serde_json::from_str(json).unwrap();
    let data = root.get("data").and_then(|d| d.as_array()).cloned().unwrap_or_default();
    Page {
        next: text(&root, "next"),
        data: data
            .iter()
            .map(|it| Item {
                id: text(it, "id").unwrap(),
                attributes: it.get("attributes").map(|a| read(a)),
            })
            .collect(),
    }
}

fn song_attrs(a: &Value) -> SongAttrs {
    SongAttrs {
        name: text(a, "name"),
        artist_name: text(a, "artistName"),
        album_name: text(a, "albumName"),
        duration_in_millis: a.get("durationInMillis").and_then(|x| x.as_u64()),
        track_number: whole(a, "trackNumber"),
        disc_number: whole(a, "discNumber"),
        artwork: artwork(a),
        play_params: play_params(a),
    }
}

fn album_attrs(a: &Value) -> AlbumAttrs {
    AlbumAttrs {
        name: text(a, "name"),
        artist_name: text(a, "artistName"),
        track_count: whole(a, "trackCount").map(|n| n as u32),
        release_date: text(a, "releaseDate"),
        artwork: artwork(a),
        play_params: play_params(a),
    }
}

fn playlist_attrs(a: &Value) -> PlaylistAttrs {
    PlaylistAttrs {
        name: text(a, "name"),
        description: a
            .get("description")
            .map(|d| Description { standard: text(d, "standard") }),
        can_edit: a.get("canEdit").and_then(|x| x.as_bool()),
        artwork: artwork(a),
    }
}

#[test]
fn parses_song_page_and_keeps_catalog_id() {
    let page = page(SONGS, song_attrs);
    assert_eq!(page.next.as_deref(), Some("/v1/me/library/songs?offset=100"));
    let s = song_from(page.data.into_iter().next().unwrap());
    assert_eq!(s.id, "i.abc123");
    assert_eq!(s.catalog_id.as_deref(), Some("1550924665"));
    assert_eq!(s.duration_ms, 191_000);
    assert_eq!(s.artist_name, "Bladee, Ecco2k & Thaiboy Digital");
}

#[test]
fn missing_attributes_do_not_fail_the_page() {
    let json = r#"{"data":[{"id":"i.1","type":"library-songs"}]}"#;
    let page = page(json, song_attrs);
    let s = song_from(page.data.into_iter().next().unwrap());
    assert_eq!(s.id, "i.1");
    assert_eq!(s.name, "");
    assert_eq!(s.duration_ms, 0);
    assert_eq!(s.catalog_id, None);
}

#[test]
fn absent_next_ends_pagination() {
    let json = r#"{"data":[]}"#;
    let page = page(json, song_attrs);
    assert!(page.next.is_none());
    assert!(page.data.is_empty());
    assert_eq!(PageWalk::new().on_page(page.next), None);
}

#[test]
fn parses_album_page() {
    let json = r#"{"data":[{"id":"l.xyz","attributes":{
        "name":"333","artistName":"Bladee","trackCount":13,
        "releaseDate":"2020-10-16",
        "artwork":{"url":"https://is1.mzstatic.com/{w}x{h}.jpg"},
        "playParams":{"catalogId":"1533070849"}}}]}"#;
    let page = page(json, album_attrs);
    let a = album_from(page.data.into_iter().next().unwrap());
    assert_eq!(a.name, "333");
    assert_eq!(a.track_count, 13);
    assert_eq!(a.catalog_id.as_deref(), Some("1533070849"));
}

#[test]
fn parses_playlist_with_nested_description() {
    let json = r#"{"data":[{"id":"p.1","attributes":{
        "name":"drain","canEdit":true,
        "description":{"standard":"cold"}}}]}"#;
    let page = page(json, playlist_attrs);
    let p = playlist_from(page.data.into_iter().next().unwrap());
    assert_eq!(p.name, "drain");
    assert!(p.can_edit);
    assert_eq!(p.description.as_deref(), Some("cold"));
}

#[test]
fn artwork_dimensions_come_along() {
    let art = Artwork { url: Some("u".into()), width: Some(600), height: Some(400) };
    let it = Item {
        id: "r.1".into(),
        attributes: Some(ArtistAttrs { name: Some("Bladee".into()), artwork: Some(art) }),
    };
    let row = artist_from(it);
    assert_eq!((row.id.as_str(), row.name.as_str()), ("r.1", "Bladee"));
    assert_eq!(row.artwork_url.as_deref(), Some("u"));

    let json = r#"{"data":[{"id":"l.1","attributes":{"artwork":{"url":"u","width":600,"height":400}}}]}"#;
    let a = album_from(page(json, album_attrs).data.into_iter().next().unwrap());
    assert_eq!((a.artwork_width, a.artwork_height), (Some(600), Some(400)));
}

#[test]
fn album_tracks_carry_the_album_they_were_asked_for() {
    let rows = album_track_rows(page(SONGS, song_attrs).data, "l.1");
    assert_eq!(rows.len(), 1);
    assert_eq!(rows[0].album_id.as_deref(), Some("l.1"));
    assert_eq!(rows[0].name, "TL;DR");
    assert_eq!(song_rows(page(SONGS, song_attrs).data)[0].album_id, None);
}

#[test]
fn truncate_keeps_error_bodies_bounded() {
    let long = "x".repeat(1000);
    assert_eq!(truncate(&long, 10).chars().count(), 11); // 10 + ellipsis
    assert_eq!(truncate("short", 10), "short");
}

#[test]
fn a_refusal_quotes_the_head_of_the_body() {
    let long = "x".repeat(301);
    match refused(404, &long) {
        ApiError::Status { status, body } => {
            assert_eq!(status, 404);
            assert_eq!(body, format!("{}…", "x".repeat(300)));
        }
        other => panic!("expected Status, got {other:?}"),
    }
    assert_eq!(refused(404, "gone").message(), "apple returned 404: gone");
    assert_eq!(ApiError::Http("x".into()).message(), "http: x");
    assert_eq!(ApiError::Unauthorized.message(), "unauthorized — token rejected");
    assert_eq!(ApiError::RateLimited.message(), "rate limited after retries");
}

#[test]
fn paths_are_asked_of_apple_and_links_as_they_are() {
    assert_eq!(
        request_url("/v1/me/library/songs?offset=100"),
        "https://api.music.apple.com/v1/me/library/songs?offset=100"
    );
    assert_eq!(request_url("https://x/y"), "https://x/y");
    assert_eq!(songs_path(), "/v1/me/library/songs?limit=100");
    assert_eq!(albums_path(), "/v1/me/library/albums?limit=100");
    assert_eq!(playlists_path(), "/v1/me/library/playlists?limit=100");
    assert_eq!(artists_path(), "/v1/me/library/artists?limit=100");
    assert_eq!(album_tracks_path("l.1"), "/v1/me/library/albums/l.1/tracks?limit=100");
    assert_eq!(playlist_tracks_path("p.1"), "/v1/me/library/playlists/p.1/tracks?limit=100");
}

#[test]
fn a_busy_server_is_asked_four_times() {
    let mut r = Retry::new();
    assert_eq!(r.on_status(429), Reply::Wait { ms: 500 });
    assert_eq!(r.on_status(500), Reply::Wait { ms: 1000 });
    assert_eq!(r.on_status(599), Reply::Wait { ms: 2000 });
    assert_eq!(r.on_status(503), Reply::RateLimited);
}

#[test]
fn other_statuses_are_settled_at_once() {
    assert_eq!(Retry::new().on_status(200), Reply::Accept);
    assert_eq!(Retry::new().on_status(299), Reply::Accept);
    assert_eq!(Retry::new().on_status(401), Reply::Unauthorized);
    assert_eq!(Retry::new().on_status(403), Reply::Unauthorized);
    assert_eq!(Retry::new().on_status(404), Reply::Refused);
    assert_eq!(Retry::new().on_status(600), Reply::Refused);
}

#[test]
fn pagination_stops_at_the_page_cap() {
    let mut w = PageWalk::new();
    for _ in 0..499 {
        assert_eq!(w.on_page(Some("/n".into())).as_deref(), Some("/n"));
    }
    assert_eq!(w.on_page(Some("/n".into())), None);
}

#[test]
fn every_request_carries_both_tokens() {
    let c = Client::new(Tokens {
        developer_token: "dev".into(),
        music_user_token: "user".into(),
        storefront: "tr".into(),
    });
    let h = c.headers();
    let get = |k: &str| h.iter().find(|(a, _)| a == k).map(|(_, v)| v.clone());
    assert_eq!(get("Authorization").as_deref(), Some("Bearer dev"));
    assert_eq!(get("Music-User-Token").as_deref(), Some("user"));
    assert_eq!(get("Origin").as_deref(), Some("https://music.apple.com"));
    assert_eq!(get("Referer").as_deref(), Some("https://music.apple.com/"));
}
