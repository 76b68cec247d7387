use capsule::auth::Tokens;
use capsule::commands::{
    api_client, apply_event, backfill, cached_lyrics, connect_failure, connected_settings,
    database_label, dev_diagnostics, engine_event, enqueue, fetched_tracks, file_label,
    load_current, native_action, navidrome_status, nothing_playable, page_request, plan_queue,
    playable_id, read_event, reconcile_backend, run_native, search_request, settings_change,
    show_lyrics, Backfill, DeadIds, Diagnostics, EngineEvent, EngineGate, LoadPlan, NativeAction,
    NowReported, ReadyStep,
};
use capsule::db::{LibraryCounts, SongRow};
use capsule::player::{EngineCommand, Player, Status, Track};
use capsule::settings::{Navidrome, Settings, Source};
use capsule::subsonic::{Client, Credentials, SubsonicError};

#[test]
fn musickit_only_commands_are_no_ops_natively() {
    // Rust already applied shuffle and repeat to its own queue; forwarding
    // them would double-apply. Prewarm has no DRM path to warm.
    assert_eq!(native_action(&EngineCommand::Prewarm { id: "x".into() }), NativeAction::Ignore);
    assert_eq!(native_action(&EngineCommand::SetShuffle { on: true }), NativeAction::Ignore);
    assert_eq!(native_action(&EngineCommand::SetRepeat { mode: 2 }), NativeAction::Ignore);
}

#[test]
fn transport_commands_map_directly() {
    assert_eq!(native_action(&EngineCommand::Play), NativeAction::Play);
    assert_eq!(native_action(&EngineCommand::Pause), NativeAction::Pause);
    assert_eq!(native_action(&EngineCommand::Seek { ms: 5000 }), NativeAction::Seek(5000));
    assert_eq!(
        native_action(&EngineCommand::SetVolume { percent: 40 }),
        NativeAction::Volume(40)
    );
}

fn row(id: &str, catalog: Option<&str>) -> SongRow {
    SongRow {
        id: id.into(),
        catalog_id: catalog.map(|c| c.into()),
        name: "t".into(),
        artist_name: "a".into(),
        album_name: "al".into(),
        duration_ms: 1000,
        artwork_url: None,
    }
}

fn track(id: &str) -> Track {
    Track {
        id: id.into(),
        title: "t".into(),
        artist: "a".into(),
        album: "al".into(),
        duration_ms: 200_000,
    }
}

#[test]
fn native_sources_queue_by_library_id_not_catalog_id() {
    // Navidrome tracks have no catalog id - that is an Apple concept. If
    // the queue filters on one, the entire library becomes unplayable and
    // the transport just says "Nothing queued".
    let navidrome_track = row("tr-1", None);
    assert_eq!(playable_id(Source::Navidrome, &navidrome_track).as_deref(), Some("tr-1"));
    assert_eq!(playable_id(Source::Local, &navidrome_track).as_deref(), Some("tr-1"));
}

#[test]
fn apple_queues_by_catalog_id_and_rejects_rows_without_one() {
    assert_eq!(
        playable_id(Source::Apple, &row("lib-1", Some("cat-1"))).as_deref(),
        Some("cat-1")
    );
    assert_eq!(playable_id(Source::Apple, &row("lib-1", None)), None);
}

#[test]
fn queue_and_skip_commands_load_the_current_index() {
    assert_eq!(
        native_action(&EngineCommand::SetQueue { ids: vec!["a".into()], start_index: 0 }),
        NativeAction::LoadCurrent
    );
    assert_eq!(native_action(&EngineCommand::SkipNext), NativeAction::LoadCurrent);
    assert_eq!(native_action(&EngineCommand::SkipPrevious), NativeAction::LoadCurrent);
}

#[test]
fn playing_on_an_empty_sink_reloads_the_track() {
    assert_eq!(run_native(&EngineCommand::Play, true, false), NativeAction::LoadCurrent);
    assert_eq!(run_native(&EngineCommand::Play, true, true), NativeAction::Play);
    assert_eq!(run_native(&EngineCommand::Play, false, false), NativeAction::Play);
    assert_eq!(run_native(&EngineCommand::Pause, true, false), NativeAction::Pause);
}

fn client() -> Client {
    match Client::new(
        Credentials { base_url: "h".into(), username: "u".into(), password: "p".into() },
        1,
    ) {
        Ok(c) => c,
        Err(e) => panic!("{}", e.message()),
    }
}

#[test]
fn the_current_track_is_opened_or_streamed() {
    let mut p = Player::new();
    assert_eq!(load_current(p.state(), Source::Local, None, None), LoadPlan::Nothing);
    p.play_queue(vec![track("abc")], 0);
    assert_eq!(
        load_current(p.state(), Source::Local, None, None),
        LoadPlan::OpenFile { path: "abc".into() }
    );
    let c = client();
    assert_eq!(load_current(p.state(), Source::Navidrome, Some(&c), None), LoadPlan::Nothing);
    assert_eq!(
        load_current(p.state(), Source::Navidrome, None, Some("/d".into())),
        LoadPlan::Nothing
    );
    match load_current(p.state(), Source::Navidrome, Some(&c), Some("/d".into())) {
        LoadPlan::Stream { url, dir, path } => {
            assert!(url.starts_with("https://h/rest/stream.view?u=u&t="), "{url}");
            assert!(url.ends_with("&id=abc"), "{url}");
            assert_eq!(dir, "/d/audio");
            assert_eq!(
                path,
                "/d/audio/ba7816bf8f01cfea414140de5dae2223b00361a396177a9cb410ff61f20015ad.dat"
            );
        }
        other => panic!("expected a stream, got {other:?}"),
    }
}

#[test]
fn a_play_is_announced_once_and_counted_once() {
    let mut p = Player::new();
    let mut now = NowReported::default();
    p.play_queue(vec![track("1"), track("2")], 0);
    let a = now.report(p.state());
    assert_eq!(a.now_playing.as_ref().map(|t| t.id.as_str()), Some("1"));
    assert_eq!(a.played, None);
    assert!(!a.clear);

    p.on_position(100_000);
    let a = now.report(p.state());
    assert!(a.now_playing.is_none());
    assert_eq!(a.played.as_deref(), Some("1"), "halfway through");
    assert_eq!(now.report(p.state()).played, None);

    p.next_track();
    let a = now.report(p.state());
    assert_eq!(a.now_playing.as_ref().map(|t| t.id.as_str()), Some("2"));

    p.set_status(Status::Ended);
    assert!(now.report(p.state()).clear);
    assert!(!now.report(p.state()).clear, "nothing left to take down");
    assert_eq!(now, NowReported::default());
}

#[test]
fn a_login_is_asked_for_once() {
    let mut g = EngineGate { ready: false, login_prompted: false };
    assert_eq!(g.on_ready(false, "unauthorized".into()), ReadyStep::PromptLogin);
    assert_eq!(g.on_ready(false, "unauthorized".into()), ReadyStep::Ignore);
    assert_eq!(g.on_ready(false, "no-dom".into()), ReadyStep::Unavailable("no-dom".into()));
    assert_eq!(g.on_ready(true, String::new()), ReadyStep::Ready);
    assert!(g.ready && !g.login_prompted);
    assert_eq!(g.on_ready(false, "no-dom".into()), ReadyStep::Ignore);
    assert_eq!(g.on_ready(false, "unauthorized".into()), ReadyStep::PromptLogin);
}

#[test]
fn events_are_read_out_of_json() {
    assert_eq!(
        read_event("unresolvable", r#"{"ids":["1","2"]}"#, vec![]),
        EngineEvent::Unresolvable(vec!["1".into(), "2".into()])
    );
    assert_eq!(
        read_event("unresolvable", r#"{"ids":["1",2]}"#, vec![]),
        EngineEvent::Unresolvable(vec![])
    );
    assert_eq!(
        read_event("playbackState", r#"{"state":-2}"#, vec![]),
        EngineEvent::PlaybackState(Some(-2))
    );
    assert_eq!(
        read_event("playbackState", "null", vec![]),
        EngineEvent::PlaybackState(None)
    );
    assert_eq!(read_event("position", r#"{"ms":-1}"#, vec![]), EngineEvent::Position(None));
    assert_eq!(
        read_event("nowPlaying", r#"{"id":"x","durationMs":7}"#, vec![]),
        EngineEvent::NowPlaying { id: Some("x".into()), duration_ms: Some(7) }
    );
    assert_eq!(
        read_event("authorization", r#"{"authorized":false}"#, vec![]),
        EngineEvent::Authorization(Some(false))
    );
    assert_eq!(read_event("error", "{}", vec![]), EngineEvent::Other);
}

#[test]
fn events_move_the_player() {
    let mut p = Player::new();
    let out = engine_event(&mut p, "recentTracks", "{}", vec![track("1"), track("2")]);
    assert_eq!(out.commands.unwrap().len(), 2);
    assert_eq!(p.state().queue.len(), 2);

    engine_event(&mut p, "position", r#"{"ms":1234}"#, vec![]);
    assert_eq!(p.state().position_ms, 1234);

    engine_event(&mut p, "nowPlaying", r#"{"id":"2","durationMs":5}"#, vec![]);
    assert_eq!(p.state().index, Some(1));
    assert_eq!(p.state().current().unwrap().duration_ms, 5);

    engine_event(&mut p, "playbackState", r#"{"state":2}"#, vec![]);
    assert_eq!(p.state().status, Status::Playing);

    let out = engine_event(&mut p, "authorization", "{}", vec![]);
    assert!(out.auth_lost, "no answer is not a yes");
    assert!(!engine_event(&mut p, "authorization", r#"{"authorized":true}"#, vec![]).auth_lost);

    let out = engine_event(&mut p, "unresolvable", r#"{"ids":["9"]}"#, vec![]);
    assert_eq!(out.unresolvable, vec!["9"]);
    assert_eq!(out.commands, None, "the player is not touched");

    let out = apply_event(&mut p, EngineEvent::RecentTracks(vec![]));
    assert_eq!(out.commands, Some(vec![]));
    assert_eq!(p.state().queue.len(), 2);
}

#[test]
fn dead_tracks_are_left_out_of_a_queue() {
    let songs = vec![row("l1", Some("1")), row("l2", None), row("l3", Some("3")), row("l4", Some("4"))];
    let mut dead = DeadIds::new();
    dead.insert("1".into());
    assert!(dead.contains("1"));
    assert!(!dead.contains("3"));

    let (tracks, start) = plan_queue(Source::Apple, &songs, &dead, 3).unwrap();
    let ids: Vec<&str> = tracks.iter().map(|t| t.id.as_str()).collect();
    assert_eq!(ids, vec!["3", "4"]);
    assert_eq!(start, 1, "the clicked track plays");

    let (_, start) = plan_queue(Source::Apple, &songs, &dead, 0).unwrap();
    assert_eq!(start, 0, "a dead track cannot be started");
    let (_, start) = plan_queue(Source::Apple, &songs, &dead, 99).unwrap();
    assert_eq!(start, 1, "the start is within the queue");

    let (tracks, start) = plan_queue(Source::Navidrome, &songs, &dead, 1).unwrap();
    assert_eq!((tracks.len(), start), (4, 1));
    assert!(plan_queue(Source::Apple, &vec![row("l2", None)], &dead, 0).is_none());
}

#[test]
fn a_queue_without_a_playable_track_changes_nothing() {
    let mut p = Player::new();
    let dead = DeadIds::new();
    assert!(enqueue(&mut p, Source::Apple, &vec![row("l2", None)], &dead, 0).is_none());
    assert!(p.state().queue.is_empty());
    let cmds = enqueue(&mut p, Source::Local, &vec![row("a", None), row("b", None)], &dead, 1);
    assert_eq!(
        cmds.unwrap(),
        vec![
            EngineCommand::SetQueue { ids: vec!["a".into(), "b".into()], start_index: 1 },
            EngineCommand::Play
        ]
    );
    assert_eq!(p.state().current().unwrap().title, "t");
}

#[test]
fn pages_and_searches_are_bounded() {
    assert_eq!(page_request(None, None), (200, 0));
    assert_eq!(page_request(Some(5000), Some(7)), (1000, 7));
    assert_eq!(search_request("  ", None), None);
    assert_eq!(search_request(" a b ", None), Some(("a b".to_string(), 100)));
    assert_eq!(search_request("a", Some(9999)), Some(("a".to_string(), 500)));
}

#[test]
fn only_apple_fetches_tracks_on_demand() {
    assert_eq!(backfill(Some(3), Source::Local, "album"), Backfill::UseCached);
    assert_eq!(backfill(Some(0), Source::Apple, "album"), Backfill::Fetch);
    assert_eq!(backfill(None, Source::Apple, "album"), Backfill::Fetch);
    assert_eq!(
        backfill(Some(0), Source::Navidrome, "playlist"),
        Backfill::Refuse("no tracks for this playlist yet - try syncing your library".into())
    );
    assert!(fetched_tracks(1, "album").is_ok());
    assert_eq!(fetched_tracks(0, "album"), Err("album has no tracks".to_string()));
    assert_eq!(nothing_playable("album"), "no tracks in this album are playable");
}

#[test]
fn the_catalog_needs_a_login() {
    assert!(matches!(api_client(None), Err(e) if e == "not signed in"));
    let half = Tokens {
        developer_token: "d".into(),
        music_user_token: " ".into(),
        storefront: "tr".into(),
    };
    assert!(api_client(Some(half)).is_err());
    let full = Tokens {
        developer_token: "d".into(),
        music_user_token: "m".into(),
        storefront: "tr".into(),
    };
    assert!(api_client(Some(full)).is_ok());
}

#[test]
fn a_recorded_miss_is_not_looked_up_again() {
    assert!(cached_lyrics(None).is_none());
    let miss = cached_lyrics(Some((None, None))).unwrap();
    assert!(miss.lines.is_empty());
    assert_eq!(miss.plain, None);
    let shown = show_lyrics(Some("[00:01]x".into()), Some("x".into()));
    assert_eq!(shown.lines[0].at_ms, 1_000);
    assert_eq!(shown.plain.as_deref(), Some("x"));
}

#[test]
fn settings_need_a_place_to_be_saved() {
    assert_eq!(settings_change(Source::Apple, Source::Local, true), Ok(true));
    assert_eq!(settings_change(Source::Apple, Source::Apple, true), Ok(false));
    assert_eq!(
        settings_change(Source::Apple, Source::Local, false),
        Err("no data directory; settings cannot be saved".to_string())
    );
}

#[test]
fn the_backend_follows_the_source() {
    let mut p = Player::new();
    p.play_queue(vec![track("1")], 0);
    let mut now = NowReported { track_id: Some("1".into()), scrobbled: true };
    let plan = reconcile_backend(&mut p, &mut now, Source::Navidrome, true, false);
    assert!(plan.stop_audio && plan.clear_presence);
    assert!(plan.close_engine && plan.make_client && plan.make_audio);
    assert!(!plan.open_engine && !plan.drop_native);
    assert!(p.state().queue.is_empty());
    assert_eq!(now, NowReported::default());

    let again = reconcile_backend(&mut p, &mut now, Source::Navidrome, false, true);
    assert!(!again.close_engine && !again.make_audio && !again.open_engine);

    let back = reconcile_backend(&mut p, &mut now, Source::Apple, false, true);
    assert!(back.open_engine && back.drop_native);
    assert!(!back.make_audio && !back.make_client);
}

#[test]
fn a_server_counts_as_configured_only_when_whole() {
    let s = Settings {
        navidrome: Navidrome { url: " http://m ".into(), username: "deniz".into() },
        ..Settings::default()
    };
    let st = navidrome_status(&s, true);
    assert!(st.configured && st.insecure);
    assert_eq!(st.url, " http://m ");
    assert!(!navidrome_status(&s, false).configured);
    assert!(!navidrome_status(&Settings::default(), true).configured);
}

#[test]
fn a_failed_connection_says_what_to_mend() {
    assert_eq!(connect_failure(&SubsonicError::Unauthorized), "wrong username or password");
    assert_eq!(connect_failure(&SubsonicError::Http("x".into())), "server unreachable");
    assert_eq!(
        connect_failure(&SubsonicError::InvalidUrl("empty".into())),
        "server url is not usable: empty"
    );
    let s = connected_settings(&Settings::default(), &client(), "u".into());
    assert_eq!(s.source, Source::Navidrome);
    assert_eq!(s.navidrome.url, "https://h");
    assert_eq!(s.navidrome.username, "u");
    assert_eq!(s.appearance.glass, "none");
}

#[test]
fn diagnostics_are_fit_to_be_pasted() {
    let mut p = Player::new();
    p.play_queue(vec![track("1"), track("2")], 1);
    p.on_position(42);
    let d = Diagnostics {
        version: "0.1.0".into(),
        source: Source::Navidrome,
        glass: "none".into(),
        has_audio: true,
        has_navidrome: true,
        engine_window: false,
        has_discord: false,
        database: database_label(Some("/home/me/library.sqlite3".into())),
        counts: LibraryCounts { songs: 1, albums: 2, playlists: 3, artists: 4 },
        navidrome_configured: true,
        navidrome_https: true,
        lastfm_key: false,
        discord_id: false,
        serve_art_from_server: false,
        onboarded: true,
        developer: false,
    };
    assert_eq!(
        dev_diagnostics(&d, p.state()),
        "capsule 0.1.0\n\
         source: Navidrome   glass: none\n\
         backend: audio=true navidrome=true engine_webview=false discord=false\n\
         database: library.sqlite3\n\
         library: 1 songs, 2 albums, 3 playlists, 4 artists\n\
         player: Loading  queue=2 index=Some(1) position=42ms volume=100 shuffle=false repeat=Off\n\
         navidrome: configured=true https=true\n\
         lastfm_key=false discord_id=false serve_art_from_server=false\n\
         onboarded: true  developer: false"
    );
    assert_eq!(database_label(None), "unknown");
    let label = database_label(Some(r"C:\Users\me\library.sqlite3".into()));
    assert!(label == "library.sqlite3" || label == r"C:\Users\me\library.sqlite3");
    assert_eq!(database_label(Some("/data/lib.db/".into())), "lib.db");
    assert_eq!(database_label(Some("/".into())), "");
    assert_eq!(file_label(None), "");
}
