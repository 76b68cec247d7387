use capsule::discord::{card_at, pad, start_epoch, start_epoch_at};
use capsule::lastfm::{
    art_query, authorize_url, best_image, judge_error, now_unix, prepare_call, scrobble_due,
    seconds_of, session_in, sign, started_at, token_in, Image, LastfmError, Play,
};
use capsule::player::{Status, Track};

fn img(size: &str, url: &str) -> Image {
    Image { url: url.into(), size: size.into() }
}

fn pairs(list: &[(&str, &str)]) -> Vec<(String, String)> {
    list.iter().map(|(k, v)| (k.to_string(), v.to_string())).collect()
}

#[test]
fn prefers_the_largest_populated_size() {
    let images = vec![
        img("small", "https://x/s.png"),
        img("medium", "https://x/m.png"),
        img("extralarge", "https://x/xl.png"),
    ];
    assert_eq!(best_image(&images).as_deref(), Some("https://x/xl.png"));
}

#[test]
fn skips_sizes_last_fm_left_blank() {
    let images = vec![img("extralarge", ""), img("large", "  "), img("medium", "https://x/m.png")];
    assert_eq!(best_image(&images).as_deref(), Some("https://x/m.png"));
}

#[test]
fn no_usable_image_is_none_not_an_empty_string() {
    assert_eq!(best_image(&vec![img("large", ""), img("medium", "")]), None);
    assert_eq!(best_image(&vec![]), None);
}

#[test]
fn any_image_will_do_where_no_known_size_is_there() {
    let images = vec![img("small", " "), img("mega", "https://x/1"), img("small", "https://x/2")];
    assert_eq!(best_image(&images).as_deref(), Some("https://x/1"));
}

#[test]
fn a_play_counts_at_the_halfway_mark() {
    let three_min = 180_000;
    assert!(!scrobble_due(89_000, three_min));
    assert!(scrobble_due(90_000, three_min));
}

#[test]
fn long_tracks_count_at_four_minutes_not_halfway() {
    // A 20-minute mix should not need 10 minutes to register.
    let twenty_min = 1_200_000;
    assert!(!scrobble_due(239_000, twenty_min));
    assert!(scrobble_due(240_000, twenty_min));
}

#[test]
fn tracks_under_thirty_seconds_never_count() {
    assert!(!scrobble_due(29_000, 29_000));
    assert!(!scrobble_due(1_000_000, 12_000));
}

#[test]
fn a_track_of_unknown_length_never_counts() {
    assert!(!scrobble_due(500_000, 0));
}

#[test]
fn signing_sorts_by_name_then_appends_the_secret() {
    let params = pairs(&[("track", "b"), ("api_key", "k"), ("artist", "a")]);
    let expected = format!("{:x}", md5::compute("api_keykartistatrackbsecret"));
    assert_eq!(sign(&params, "secret"), expected);
}

#[test]
fn signing_is_order_independent() {
    let one = pairs(&[("b", "2"), ("a", "1")]);
    let two = pairs(&[("a", "1"), ("b", "2")]);
    assert_eq!(sign(&one, "s"), sign(&two, "s"));
}

#[test]
fn the_timestamp_is_when_the_track_started() {
    assert_eq!(started_at(1_000_000, 90_000), 999_910);
}

#[test]
fn a_position_beyond_the_clock_cannot_underflow() {
    assert_eq!(started_at(10, 90_000), 0);
}

#[test]
fn the_authorize_url_escapes_its_parameters() {
    let url = authorize_url("a b", "t&x");
    assert!(url.contains("api_key=a%20b"), "{url}");
    assert!(url.contains("token=t%26x"), "{url}");
    assert_eq!(url, "https://www.last.fm/api/auth/?api_key=a%20b&token=t%26x");
}

#[test]
fn album_art_is_asked_for_only_when_everything_is_known() {
    assert_eq!(
        art_query("k", "Bladee", "333").unwrap(),
        pairs(&[
            ("method", "album.getinfo"),
            ("api_key", "k"),
            ("artist", "Bladee"),
            ("album", "333"),
            ("format", "json"),
            ("autocorrect", "1"),
        ])
    );
    assert!(art_query(" ", "Bladee", "333").is_none());
    assert!(art_query("k", "", "333").is_none());
    assert!(art_query("k", "Bladee", "\t").is_none());
}

#[test]
fn a_call_is_signed_over_everything_but_its_format() {
    let sent = match prepare_call("track.love", "k", "s", pairs(&[("sk", "x")])) {
        Ok(p) => p,
        Err(e) => panic!("{}", e.message()),
    };
    let expected = format!("{:x}", md5::compute("api_keykmethodtrack.loveskxs"));
    assert_eq!(
        sent,
        pairs(&[
            ("sk", "x"),
            ("method", "track.love"),
            ("api_key", "k"),
            ("api_sig", expected.as_str()),
            ("format", "json"),
        ])
    );
    assert!(matches!(prepare_call("m", " ", "s", vec![]), Err(LastfmError::NotConfigured)));
    assert!(matches!(prepare_call("m", "k", "", vec![]), Err(LastfmError::NotConfigured)));
}

#[test]
fn some_codes_mean_that_the_link_is_gone() {
    for code in [4, 9, 14, 15] {
        assert_eq!(judge_error(code, Some("m".into())), LastfmError::NotAuthorized);
    }
    assert_eq!(judge_error(11, Some("offline".into())).message(), "last.fm said: offline");
    assert_eq!(judge_error(-3, None).message(), "last.fm said: error -3");
    assert_eq!(LastfmError::NotConfigured.message(), "not configured");
    assert_eq!(LastfmError::NotAuthorized.message(), "last.fm is not linked yet");
    assert_eq!(LastfmError::Http("x".into()).message(), "could not reach last.fm");
    assert_eq!(LastfmError::Malformed.message(), "last.fm sent a malformed response");
}

#[test]
fn blank_tokens_and_sessions_are_malformed() {
    assert_eq!(token_in(Some("t".into())).unwrap(), "t");
    assert_eq!(token_in(Some(" ".into())), Err(LastfmError::Malformed));
    assert_eq!(token_in(None), Err(LastfmError::Malformed));
    let s = session_in(Some(("key".into(), "deniz".into()))).unwrap();
    assert_eq!((s.key.as_str(), s.username.as_str()), ("key", "deniz"));
    assert!(session_in(Some((" ".into(), "deniz".into()))).is_err());
    assert!(session_in(None).is_err());
}

#[test]
fn a_play_names_its_album_only_if_it_has_one() {
    let p = Play { artist: "A", title: "T", album: "B" };
    assert_eq!(
        p.params("sk"),
        pairs(&[("artist", "A"), ("track", "T"), ("sk", "sk"), ("album", "B")])
    );
    let single = Play { artist: "A", title: "T", album: "  " };
    assert_eq!(
        single.scrobble_params("sk", 42),
        pairs(&[("artist", "A"), ("track", "T"), ("sk", "sk"), ("timestamp", "42")])
    );
}

#[test]
fn the_clock_counts_seconds() {
    assert_eq!(seconds_of(Some((5, 999_999_999))), 5);
    assert_eq!(seconds_of(None), 0);
    assert!(now_unix() > 1_500_000_000);
}

// ── presence ───────────────────────────────────────────────────────────

#[test]
fn padding_survives_trimming() {
    let padded = pad("e");
    assert_eq!(padded.chars().count(), 2);
    assert_eq!(padded.trim().chars().count(), 2, "must not collapse back to one char");
}

#[test]
fn white_space_does_not_count_toward_the_minimum() {
    assert_eq!(pad("e "), "e\u{200B}");
    assert_eq!(pad("  e"), "e\u{200B}");
    assert_eq!(pad("\te\n").trim().chars().count(), 2);
    assert_eq!(pad(" 1L "), " 1L ", "long enough, so left as it is");
}

#[test]
fn a_one_letter_album_is_padded() {
    assert_eq!(pad("E").chars().count(), 2);
}

#[test]
fn short_or_empty_values_are_padded_to_discords_minimum() {
    assert_eq!(pad("").chars().count(), 2);
    assert_eq!(pad("   ").chars().count(), 2);
    assert_eq!(pad("5").chars().count(), 2);
    assert_eq!(pad("1L"), "1L");
    assert_eq!(pad("Carhartt"), "Carhartt");
    assert_eq!(pad("   "), "--");
    assert_eq!(pad("5"), "5\u{200B}");
}

#[test]
fn only_a_playing_track_gets_a_clock() {
    assert!(start_epoch(Status::Playing).is_some());
    assert!(start_epoch(Status::Paused).is_none());
    assert!(start_epoch(Status::Idle).is_none());
    assert_eq!(start_epoch_at(Status::Playing, Some((7, 1))), Some(7));
    assert_eq!(start_epoch_at(Status::Playing, None), None);
    assert_eq!(start_epoch_at(Status::Stalled, Some((7, 1))), None);
}

#[test]
fn a_card_shows_title_artist_and_album() {
    let track = Track {
        id: "1".into(),
        title: "e".into(),
        artist: "".into(),
        album: " ".into(),
        duration_ms: 1,
    };
    let c = card_at(&track, Status::Playing, Some("https://x".into()), Some((9, 0)));
    assert_eq!(c.details, "e\u{200B}");
    assert_eq!(c.state, "--");
    assert_eq!(c.large_text, None, "a blank album is not shown");
    assert_eq!(c.large_image.as_deref(), Some("https://x"));
    assert_eq!(c.start, Some(9));
    let named = Track { album: "B".into(), ..track };
    assert_eq!(card_at(&named, Status::Paused, None, None).large_text.as_deref(), Some("B\u{200B}"));
}
