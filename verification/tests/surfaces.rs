use capsule::audio::{
    track_ended, AudioError, DecodeStep, EngineReport, Loads, TickActions, Ticker,
};
use capsule::controls::{perform, tray_action, tray_menu, Intent, MenuEntry, TrayAction};
use capsule::db::Artwork;
use capsule::engine::{engine_url, js_string, script};
use capsule::order::{is_before, stable_order, stable_text_order};
use capsule::player::{EngineCommand, Player, Status, Track};
use capsule::smtc::{cover_url, media_playback, on_event, update, MediaEvent, MediaPlayback};
use capsule::snap::{hit_test, on_max_click, pointer, Hit, MaxClick, Metrics, Rect};
use capsule::sync::{LocalScan, Stage, StageStep, Start, SyncGuard, SyncRun};
use capsule::thumbbar::{
    buttons, clicked_button, handle_message, play_pause, BarMessage, Glyph, ID_NEXT, ID_PLAY_PAUSE,
    ID_PREV, THBN_CLICKED,
};
use capsule::window::{
    first_script, glass_setting, is_transparent, material, Material, PageGate, PageStep,
};
use capsule::{api, auth, local, settings, source, sync, thumbbar};

fn track(id: &str) -> Track {
    Track {
        id: id.into(),
        title: "T".into(),
        artist: "A".into(),
        album: "B".into(),
        duration_ms: 200_000,
    }
}

fn loaded() -> Player {
    let mut p = Player::new();
    p.play_queue(vec![track("1"), track("2")], 0);
    p
}

// ── the web player ─────────────────────────────────────────────────────

#[test]
fn ids_are_escaped_not_concatenated_raw() {
    let s = js_string("ab\"c\\d");
    assert_eq!(s, "\"ab\\\"c\\\\d\"");
}

#[test]
fn control_characters_are_escaped() {
    assert_eq!(js_string("a\n\t\r\u{8}\u{c}\u{1}\u{7f}é"), "\"a\\n\\t\\r\\b\\f\\u0001\u{7f}é\"");
}

#[test]
fn seek_converts_milliseconds_to_seconds() {
    let cmd = EngineCommand::Seek { ms: 90_500 };
    let EngineCommand::Seek { ms } = cmd else { unreachable!() };
    let seconds = f64::from(u32::try_from(ms).unwrap()) / 1000.0;
    assert!((seconds - 90.5).abs() < f64::EPSILON);
    assert_eq!(
        script(&EngineCommand::Seek { ms }, &format!("{seconds}")),
        "window.__saint && __saint.seek(90.5)"
    );
}

#[test]
fn volume_converts_percent_to_unit_interval() {
    let unit = f64::from(50u8) / 100.0;
    assert!((unit - 0.5).abs() < f64::EPSILON);
    assert_eq!(
        script(&EngineCommand::SetVolume { percent: 50 }, &format!("{unit}")),
        "window.__saint && __saint.setVolume(0.5)"
    );
}

#[test]
fn every_command_becomes_a_call() {
    let ids = vec!["a".to_string(), "b\"c".to_string()];
    assert_eq!(
        script(&EngineCommand::SetQueue { ids, start_index: 1 }, ""),
        "window.__saint && __saint.setQueue([\"a\",\"b\\\"c\"],1)"
    );
    assert_eq!(script(&EngineCommand::Play, ""), "window.__saint && __saint.play()");
    assert_eq!(script(&EngineCommand::Pause, ""), "window.__saint && __saint.pause()");
    assert_eq!(script(&EngineCommand::SkipNext, ""), "window.__saint && __saint.skipNext()");
    assert_eq!(
        script(&EngineCommand::SkipPrevious, ""),
        "window.__saint && __saint.skipPrevious()"
    );
    assert_eq!(
        script(&EngineCommand::SetShuffle { on: true }, ""),
        "window.__saint && __saint.setShuffle(true)"
    );
    assert_eq!(
        script(&EngineCommand::SetRepeat { mode: 2 }, ""),
        "window.__saint && __saint.setRepeat(2)"
    );
    assert_eq!(
        script(&EngineCommand::Prewarm { id: "x".into() }, ""),
        "window.__saint && __saint.prewarm(\"x\")"
    );
    assert_eq!(engine_url(None), "https://music.apple.com");
    assert_eq!(engine_url(Some("http://x".into())), "http://x");
}

// ── native playback ────────────────────────────────────────────────────

#[test]
fn end_of_track_is_only_detected_on_the_playing_to_empty_edge() {
    assert!(track_ended(true, true), "was playing, sink now empty");
    assert!(!track_ended(false, true), "already idle; not an end");
    assert!(!track_ended(true, false), "still has audio queued");
    assert!(!track_ended(false, false));
}

#[test]
fn a_newer_load_supersedes_an_older_one() {
    let mut l = Loads::new();
    let first = l.begin();
    let second = l.begin();
    assert!(!l.is_current(first));
    assert_eq!(l.on_decoded(first, None), DecodeStep::Superseded);
    assert_eq!(l.seek(7000), None, "held while loading");
    assert_eq!(l.on_decoded(second, None), DecodeStep::Append { seek_ms: Some(7000) });
    assert_eq!(l.on_decoded(second, None), DecodeStep::Append { seek_ms: None });
    l.on_thread_end(second);
    assert!(!l.is_loading());
    assert_eq!(l.seek(7000), Some(7000));
}

#[test]
fn the_end_of_a_superseded_load_leaves_the_newer_one_loading() {
    let mut l = Loads::new();
    let first = l.begin();
    let second = l.begin();
    l.on_thread_end(first);
    assert!(l.is_loading(), "the newer decoder has not reached the sink");
    assert_eq!(l.seek(10), None, "still held");
    l.on_thread_end(second);
    assert!(!l.is_loading());
}

#[test]
fn a_decoding_failure_is_reported() {
    let mut l = Loads::new();
    let mine = l.begin();
    assert_eq!(l.seek(5), None);
    l.stop();
    assert_eq!(
        l.on_decoded(mine, Some("eof".into())),
        DecodeStep::Fail("could not decode this track: eof".into())
    );
    assert_eq!(l.on_decoded(mine, None), DecodeStep::Append { seek_ms: None });
    assert_eq!(
        AudioError::Device("x".into()).message(),
        "no audio output device available: x"
    );
    assert_eq!(
        AudioError::Decode("x".into()).message(),
        "this track's format could not be decoded: x"
    );
    assert_eq!(AudioError::Io("x".into()).message(), "io: x");
}

fn report(empty: bool) -> EngineReport {
    EngineReport { error: None, loading: false, empty, paused: false, position_ms: 1500 }
}

#[test]
fn the_ticker_follows_the_engine_and_moves_on() {
    let mut p = loaded();
    let mut t = Ticker::new();
    let a = t.tick(Some(report(false)), &mut p);
    assert!(a.publish);
    assert_eq!(p.state().status, Status::Playing);
    assert_eq!(p.state().position_ms, 1500);

    let a = t.tick(Some(report(true)), &mut p);
    assert_eq!(a.advance, Some(vec![EngineCommand::SkipNext]));
    assert!(!a.stop_after);
    assert_eq!(p.state().index, Some(1));

    let quiet = t.tick(Some(report(true)), &mut p);
    assert_eq!(quiet.advance, None, "only the edge counts");

    t.tick(Some(report(false)), &mut p);
    let a = t.tick(Some(report(true)), &mut p);
    assert_eq!(a.advance, Some(vec![]));
    assert!(a.stop_after, "the queue has ended");
}

#[test]
fn a_failure_stops_playback_without_skipping() {
    let mut p = loaded();
    let mut t = Ticker::new();
    t.tick(Some(report(false)), &mut p);
    let mut bad = report(true);
    bad.error = Some("server unreachable".into());
    let a = t.tick(Some(bad), &mut p);
    assert_eq!(
        a,
        TickActions {
            report_error: Some("server unreachable".into()),
            stop: true,
            publish: true,
            advance: None,
            stop_after: false,
        }
    );
    assert_eq!(p.state().status, Status::Idle);
    assert_eq!(p.state().index, Some(0));
    assert_eq!(t.tick(None, &mut p).advance, None);
}

// ── steering from outside the window ───────────────────────────────────

#[test]
fn the_tray_steers_and_shows() {
    assert_eq!(tray_action("playpause"), TrayAction::Steer(Intent::Toggle));
    assert_eq!(tray_action("next"), TrayAction::Steer(Intent::Next));
    assert_eq!(tray_action("prev"), TrayAction::Steer(Intent::Previous));
    assert_eq!(tray_action("show"), TrayAction::ShowWindow);
    assert_eq!(tray_action("quit"), TrayAction::Quit);
    assert_eq!(tray_action("other"), TrayAction::Nothing);
    let menu = tray_menu();
    assert_eq!(menu.len(), 6);
    assert_eq!(menu[0], MenuEntry::Item { id: "playpause", label: "Play / Pause" });
    assert_eq!(menu[3], MenuEntry::Separator);
}

#[test]
fn intents_are_carried_out_by_the_player() {
    let mut p = loaded();
    assert_eq!(perform(&mut p, Intent::Next), vec![EngineCommand::SkipNext]);
    assert_eq!(p.state().index, Some(1));
    assert_eq!(perform(&mut p, Intent::Previous), vec![EngineCommand::SkipPrevious]);
    assert_eq!(perform(&mut p, Intent::Toggle), vec![EngineCommand::Pause]);
    assert_eq!(perform(&mut p, Intent::Play), vec![EngineCommand::Play]);
    assert_eq!(perform(&mut p, Intent::Pause), vec![EngineCommand::Pause]);
}

#[test]
fn middle_button_shows_pause_only_while_playing() {
    let (icon, tip) = play_pause(Status::Playing);
    assert_eq!(tip, "Pause");
    assert_eq!(icon, Glyph::Pause);

    for s in [Status::Idle, Status::Paused, Status::Loading, Status::Stalled, Status::Ended] {
        let (icon, tip) = play_pause(s);
        assert_eq!(tip, "Play", "{s:?} must offer play");
        assert_eq!(icon, Glyph::Play, "{s:?} must show the play glyph");
    }

    assert_ne!(Glyph::Play, Glyph::Pause);
}

#[test]
fn only_thumbbar_commands_are_claimed() {
    let wparam = ((THBN_CLICKED as usize) << 16) | ID_NEXT as usize;
    assert_eq!(clicked_button(wparam), Some(ID_NEXT));

    assert_eq!(clicked_button(ID_NEXT as usize), None);
}

#[test]
fn the_bar_answers_its_own_messages() {
    let clicked = ((THBN_CLICKED as usize) << 16) | ID_PREV as usize;
    assert_eq!(handle_message(7, 0, Some(7), 0x111), BarMessage::AddButtons);
    assert_eq!(
        handle_message(0x111, clicked, Some(7), 0x111),
        BarMessage::Clicked { id: ID_PREV }
    );
    assert_eq!(handle_message(0x111, 5, None, 0x111), BarMessage::NotOurs);
    assert_eq!(handle_message(0x112, clicked, None, 0x111), BarMessage::NotOurs);
    assert_eq!(thumbbar::on_click(ID_PLAY_PAUSE), Some(Intent::Toggle));
    assert_eq!(thumbbar::on_click(ID_PREV), Some(Intent::Previous));
    assert_eq!(thumbbar::on_click(ID_NEXT), Some(Intent::Next));
    assert_eq!(thumbbar::on_click(9), None);
    let b = buttons(Status::Playing);
    assert_eq!(b.len(), 3);
    assert_eq!((b[1].id, b[1].tip), (ID_PLAY_PAUSE, "Pause"));
    assert_eq!((b[0].glyph, b[2].glyph), (Glyph::Previous, Glyph::Next));
}

#[test]
fn the_flyout_shows_the_current_track() {
    let mut p = loaded();
    p.on_position(5);
    let a = update(p.state(), Some("https://c".into()));
    assert_eq!((a.title.as_str(), a.artist.as_str(), a.album.as_str()), ("T", "A", "B"));
    assert_eq!(a.duration_ms, Some(200_000));
    assert_eq!(a.playback, MediaPlayback::Playing { position_ms: 5 });
    let none = update(Player::new().state(), Some("https://c".into()));
    assert_eq!((none.title.as_str(), none.cover), ("", None));
    assert_eq!(none.playback, MediaPlayback::Stopped);
    assert_eq!(media_playback(Status::Paused, 9), MediaPlayback::Paused { position_ms: 9 });
    assert_eq!(media_playback(Status::Stalled, 9), MediaPlayback::Playing { position_ms: 9 });
    assert_eq!(media_playback(Status::Ended, 9), MediaPlayback::Stopped);
    let art = Artwork { template: "https://a/{w}.jpg".into(), max_side: Some(200) };
    assert_eq!(cover_url(&art), "https://a/200.jpg");
}

#[test]
fn media_keys_are_intents() {
    assert_eq!(on_event(MediaEvent::Play), Some(Intent::Play));
    assert_eq!(on_event(MediaEvent::Stop), Some(Intent::Pause));
    assert_eq!(on_event(MediaEvent::Toggle), Some(Intent::Toggle));
    assert_eq!(on_event(MediaEvent::Next), Some(Intent::Next));
    assert_eq!(on_event(MediaEvent::Previous), Some(Intent::Previous));
    assert_eq!(on_event(MediaEvent::Other), None);
}

// ── the window ─────────────────────────────────────────────────────────

#[test]
fn borders_come_before_the_title_bar() {
    let r = Rect { left: 0, top: 0, right: 1000, bottom: 600 };
    let m = Metrics { edge: 6, bar: 44, ctrl: 44 };
    assert_eq!(hit_test(r, m, false, 0, 0), Hit::TopLeft);
    assert_eq!(hit_test(r, m, false, 999, 0), Hit::TopRight);
    assert_eq!(hit_test(r, m, false, 0, 599), Hit::BottomLeft);
    assert_eq!(hit_test(r, m, false, 999, 599), Hit::BottomRight);
    assert_eq!(hit_test(r, m, false, 500, 5), Hit::Top);
    assert_eq!(hit_test(r, m, false, 500, 594), Hit::Bottom);
    assert_eq!(hit_test(r, m, false, 5, 300), Hit::Left);
    assert_eq!(hit_test(r, m, false, 994, 300), Hit::Right);
    assert_eq!(hit_test(r, m, false, 930, 20), Hit::MaxButton);
    assert_eq!(hit_test(r, m, false, 960, 20), Hit::Client, "the close button");
    assert_eq!(hit_test(r, m, true, 0, 0), Hit::Client, "maximised windows do not resize");
    assert_eq!(hit_test(r, m, true, 930, 0), Hit::MaxButton);
    assert_eq!(on_max_click(true), MaxClick::Restore);
    assert_eq!(on_max_click(false), MaxClick::Maximize);
}

#[test]
fn pointers_may_be_left_of_the_first_screen() {
    assert_eq!(pointer(0x0005_fffe), (-2, 5));
    assert_eq!(pointer(0xffff_ffff_8000_7fff), (32767, -32768));
}

#[test]
fn unknown_materials_are_plain() {
    assert_eq!(material("acrylic-chrome"), Material::Acrylic);
    assert_eq!(material("acrylic-all"), Material::Acrylic);
    assert_eq!(material("mica"), Material::Mica);
    assert_eq!(material("frost"), Material::Plain);
    assert!(is_transparent("frost"));
    assert!(!is_transparent("none"));
    assert_eq!(glass_setting(Some("mica".into()), "none"), "mica");
    assert_eq!(glass_setting(None, "none"), "none");
    let s = first_script("a\"b");
    assert!(s.contains("var v = \"a\\\"b\";"), "{s}");
    assert!(s.starts_with("(function () {"));
    assert!(s.ends_with("})();"));
}

#[test]
fn a_minimised_page_sleeps_once_and_wakes_once() {
    let mut g = PageGate { suspended: false };
    assert_eq!(g.on_resized(0, 0, false), PageStep::Nothing);
    assert_eq!(g.on_resized(0, 0, true), PageStep::Suspend);
    assert_eq!(g.on_resized(0, 0, true), PageStep::Nothing);
    assert_eq!(g.on_resized(800, 0, false), PageStep::Resume);
    assert_eq!(g.on_resized(800, 600, false), PageStep::Nothing);
}

// ── syncing ────────────────────────────────────────────────────────────

#[test]
fn guard_allows_one_sync_at_a_time() {
    let mut g = SyncGuard::default();
    assert!(g.try_begin(), "first sync should start");
    assert!(!g.try_begin(), "second concurrent sync must be refused");
    g.end();
    assert!(g.try_begin(), "guard must let a run in once the first is over");
}

#[test]
fn a_run_goes_through_its_stages() {
    let (mut run, p) = SyncRun::new(true, 3);
    assert_eq!((p.stage, p.done), ("songs", false));
    assert!(run.wants(2, 3));
    assert!(!run.wants(0, 3));
    assert!(!run.wants(2, 4), "the library was switched");
    assert_eq!(run.on_written(Some(2)).unwrap().songs, 2);
    assert_eq!(run.on_written(None).unwrap().songs, 2);
    assert_eq!(run.on_stage_end(None), StageStep::Next(Stage::Albums));
    assert_eq!(run.on_written(Some(5)).unwrap().stage, "albums");
    assert_eq!(run.on_stage_end(None), StageStep::Next(Stage::Playlists));
    assert_eq!(run.on_stage_end(None), StageStep::Next(Stage::PlaylistTracks));
    assert!(run.wants_playlist(3));
    assert_eq!(run.on_stage_end(None), StageStep::Next(Stage::Artists));
    assert!(run.on_written(Some(1)).is_none());
    let failed = source::SourceError::Apple(api::ApiError::RateLimited);
    assert_eq!(run.on_stage_end(Some(failed)), StageStep::Next(Stage::Finishing));
    let p = run.finish(3).unwrap();
    assert_eq!((p.stage, p.songs, p.albums, p.done), ("done", 2, 5, true));
    assert_eq!(run.stage(), Stage::Over);
    assert!(run.finish(3).is_none());
}

#[test]
fn a_failed_stage_ends_the_run() {
    let (mut run, _) = SyncRun::new(false, 0);
    let failed = source::SourceError::Apple(api::ApiError::Unauthorized);
    match run.on_stage_end(Some(failed)) {
        StageStep::Failed(f) => {
            assert!(f.needs_auth);
            assert_eq!(f.reason, "unauthorized — token rejected");
        }
        other => panic!("expected a failure, got {other:?}"),
    }
    assert_eq!(run.stage(), Stage::Over);
    assert_eq!(run.on_stage_end(None), StageStep::Next(Stage::Over));
    assert!(run.finish(0).is_none());

    let (mut run, _) = SyncRun::new(true, 0);
    assert!(!run.wants_playlist(1));
    assert_eq!(run.stage(), Stage::Over);
}

#[test]
fn a_run_starts_as_the_source_asks() {
    let mut s = settings::Settings::default();
    match sync::start(&s, None, None, None, 1) {
        Start::Fail(f) => assert!(f.needs_auth && f.reason == "not signed in"),
        _ => panic!("nobody is signed in"),
    }
    let tokens = auth::Tokens {
        developer_token: "d".into(),
        music_user_token: "m".into(),
        storefront: "".into(),
    };
    assert!(matches!(sync::start(&s, Some(tokens), None, None, 1), Start::Fetch { .. }));
    s.source = settings::Source::Local;
    s.local.folders = vec!["/m".into()];
    match sync::start(&s, None, None, None, 1) {
        Start::ScanLocal { folders } => assert_eq!(folders, vec!["/m"]),
        _ => panic!("local folders are scanned"),
    }
}

#[test]
fn a_scan_becomes_rows() {
    assert_eq!(
        LocalScan::begin(&vec![], 1).err().unwrap().reason,
        "no music folders chosen yet"
    );
    let (scan, p) = LocalScan::begin(&vec!["/m".into()], 1).ok().unwrap();
    assert_eq!((p.stage, p.songs, p.done), ("songs", 0, false));
    assert_eq!(scan.broken().reason, "could not read your music folders");
    let file = |path: &str| local::ScannedFile {
        path: path.into(),
        tags: Some(local::Tags {
            title: "t".into(),
            artist: "a".into(),
            album_artist: "a".into(),
            album: "al".into(),
            track_number: None,
            disc_number: None,
            duration_ms: 1,
            has_picture: false,
        }),
    };
    let rows = scan.on_scanned(vec![file("/m/1"), file("/m/2")], 1).unwrap();
    assert_eq!((rows.songs.len(), rows.albums.len(), rows.artists.len()), (2, 1, 1));
    let p = scan.done(&rows);
    assert_eq!((p.songs, p.albums, p.done), (2, 1, true));
    assert!(scan.on_scanned(vec![file("/m/1")], 2).is_none(), "the library was switched");
}

// ── order ──────────────────────────────────────────────────────────────

#[test]
fn equal_keys_keep_their_order() {
    assert_eq!(stable_order(&vec![5, -1, 5, 0]), vec![1, 3, 0, 2]);
    let names: Vec<String> = ["b", "a", "ab", "b"].iter().map(|s| s.to_string()).collect();
    assert_eq!(stable_text_order(&names), vec![1, 2, 0, 3]);
    assert!(is_before("a", "ab"));
    assert!(is_before("Z", "a"));
    assert!(!is_before("a", "a"));
}
