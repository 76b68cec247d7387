use capsule::player::{
    map_musickit_state, EngineCommand, Player, PlayerState, Repeat, Status, Track,
};

fn track(id: &str) -> Track {
    Track {
        id: id.into(),
        title: format!("t{id}"),
        artist: "a".into(),
        album: "b".into(),
        duration_ms: 200_000,
    }
}

fn loaded() -> Player {
    let mut p = Player::new();
    p.play_queue(vec![track("1"), track("2"), track("3")], 0);
    p
}

#[test]
fn musickit_state_1_is_loading_not_playing() {
    assert_eq!(map_musickit_state(1), Status::Loading);
    assert_eq!(map_musickit_state(2), Status::Playing);
    assert_eq!(map_musickit_state(3), Status::Paused);
    assert_eq!(map_musickit_state(8), Status::Stalled);
    assert_eq!(map_musickit_state(10), Status::Ended);
}

#[test]
fn every_other_backend_state_is_mapped() {
    assert_eq!(map_musickit_state(0), Status::Idle);
    assert_eq!(map_musickit_state(4), Status::Idle);
    assert_eq!(map_musickit_state(5), Status::Ended);
    assert_eq!(map_musickit_state(6), Status::Loading);
    assert_eq!(map_musickit_state(7), Status::Loading);
    assert_eq!(map_musickit_state(9), Status::Stalled);
    assert_eq!(map_musickit_state(-1), Status::Loading);
}

#[test]
fn play_queue_sets_queue_and_emits_commands() {
    let mut p = Player::new();
    let cmds = p.play_queue(vec![track("1"), track("2")], 1);
    assert_eq!(p.state().index, Some(1));
    assert_eq!(p.state().status, Status::Loading);
    assert_eq!(
        cmds,
        vec![
            EngineCommand::SetQueue { ids: vec!["1".into(), "2".into()], start_index: 1 },
            EngineCommand::Play
        ]
    );
}

#[test]
fn play_queue_clamps_out_of_range_start() {
    let mut p = Player::new();
    p.play_queue(vec![track("1"), track("2")], 99);
    assert_eq!(p.state().index, Some(1));
}

#[test]
fn empty_queue_is_a_noop_not_a_panic() {
    let mut p = Player::new();
    assert!(p.play_queue(vec![], 0).is_empty());
    assert!(p.next_track().is_empty());
    assert!(p.previous_track().is_empty());
    assert!(p.seek(1000).is_empty());
    assert_eq!(p.state().status, Status::Idle);
}

#[test]
fn next_advances_and_stops_at_end_when_repeat_off() {
    let mut p = loaded();
    assert_eq!(p.next_track(), vec![EngineCommand::SkipNext]);
    assert_eq!(p.state().index, Some(1));
    assert_eq!(p.next_track(), vec![EngineCommand::SkipNext]);
    assert_eq!(p.state().index, Some(2));

    let cmds = p.next_track();
    assert!(cmds.is_empty(), "should not wrap with repeat off");
    assert_eq!(p.state().index, Some(2));
    assert_eq!(p.state().status, Status::Ended);
}

#[test]
fn next_wraps_when_repeat_all() {
    let mut p = loaded();
    p.set_repeat(Repeat::All);
    p.next_track();
    p.next_track();
    let cmds = p.next_track();
    assert_eq!(p.state().index, Some(0));
    assert!(matches!(cmds.first(), Some(EngineCommand::SetQueue { .. })));
}

#[test]
fn next_still_advances_under_repeat_one() {
    let mut p = loaded();
    p.set_repeat(Repeat::One);
    p.next_track();
    assert_eq!(p.state().index, Some(1));
}

#[test]
fn previous_restarts_track_when_past_threshold() {
    let mut p = loaded();
    p.next_track();
    p.on_position(9_000);
    let cmds = p.previous_track();
    assert_eq!(cmds, vec![EngineCommand::Seek { ms: 0 }]);
    assert_eq!(p.state().index, Some(1), "should not change track");
    assert_eq!(p.state().position_ms, 0);
}

#[test]
fn the_restart_threshold_itself_still_goes_back() {
    let mut p = loaded();
    p.next_track();
    p.on_position(3_000);
    assert_eq!(p.previous_track(), vec![EngineCommand::SkipPrevious]);
    p.next_track();
    p.on_position(3_001);
    assert_eq!(p.previous_track(), vec![EngineCommand::Seek { ms: 0 }]);
}

#[test]
fn previous_goes_back_when_early_in_track() {
    let mut p = loaded();
    p.next_track();
    p.on_position(500);
    assert_eq!(p.previous_track(), vec![EngineCommand::SkipPrevious]);
    assert_eq!(p.state().index, Some(0));
}

#[test]
fn previous_at_first_track_restarts_rather_than_underflowing() {
    let mut p = loaded();
    p.on_position(100);
    let cmds = p.previous_track();
    assert_eq!(p.state().index, Some(0));
    assert_eq!(cmds, vec![EngineCommand::Seek { ms: 0 }]);
}

#[test]
fn previous_wraps_to_last_when_repeat_on() {
    let mut p = loaded();
    p.set_repeat(Repeat::All);
    p.on_position(100);
    p.previous_track();
    assert_eq!(p.state().index, Some(2));
}

#[test]
fn seek_clamps_to_duration() {
    let mut p = loaded();
    let cmds = p.seek(999_999);
    assert_eq!(cmds, vec![EngineCommand::Seek { ms: 200_000 }]);
    assert_eq!(p.state().position_ms, 200_000);
}

#[test]
fn seek_is_free_while_the_length_is_unknown() {
    let mut p = Player::new();
    let mut t = track("1");
    t.duration_ms = 0;
    p.play_queue(vec![t], 0);
    assert_eq!(p.seek(999_999), vec![EngineCommand::Seek { ms: 999_999 }]);
}

#[test]
fn volume_clamps_to_100() {
    let mut p = Player::new();
    let cmds = p.set_volume(250);
    assert_eq!(cmds, vec![EngineCommand::SetVolume { percent: 100 }]);
    assert_eq!(p.state().volume, 100);
}

#[test]
fn volume_below_the_limit_is_kept() {
    let mut p = Player::new();
    assert_eq!(p.set_volume(37), vec![EngineCommand::SetVolume { percent: 37 }]);
    assert_eq!(p.state().volume, 37);
}

#[test]
fn toggle_pauses_while_playing_and_resumes_while_paused() {
    let mut p = loaded();
    p.on_playback_state(2); // playing
    assert_eq!(p.toggle(), vec![EngineCommand::Pause]);
    p.on_playback_state(3); // paused
    assert_eq!(p.toggle(), vec![EngineCommand::Play]);
}

#[test]
fn toggle_with_nothing_queued_does_nothing() {
    let mut p = Player::new();
    assert!(p.toggle().is_empty());
}

#[test]
fn play_and_pause_ask_only_when_there_is_something_to_ask() {
    let mut p = Player::new();
    assert!(p.play().is_empty());
    assert!(p.pause().is_empty());
    let mut p = loaded();
    assert_eq!(p.play(), vec![EngineCommand::Play]);
    assert_eq!(p.pause(), vec![EngineCommand::Pause]);
    assert_eq!(p.state().status, Status::Loading, "the backend reports the change");
}

#[test]
fn item_ended_does_not_skip_because_musickit_auto_advances() {
    let mut p = loaded();
    let cmds = p.on_playback_state(5); // item ended
    assert!(cmds.is_empty(), "must not command a skip on natural item-end");
    assert_eq!(p.state().index, Some(0), "index follows nowPlaying, not this");
}

#[test]
fn item_ended_under_repeat_one_replays_same_track() {
    let mut p = loaded();
    p.set_repeat(Repeat::One);
    let cmds = p.on_playback_state(5); // item ended
    assert_eq!(p.state().index, Some(0));
    assert_eq!(cmds, vec![EngineCommand::Seek { ms: 0 }, EngineCommand::Play]);
}

#[test]
fn queue_completed_stops_when_repeat_off() {
    let mut p = loaded();
    let cmds = p.on_playback_state(10); // whole queue done
    assert!(cmds.is_empty());
}

#[test]
fn queue_completed_wraps_when_repeat_all() {
    let mut p = loaded();
    p.set_repeat(Repeat::All);
    let cmds = p.on_playback_state(10);
    assert_eq!(p.state().index, Some(0));
    assert!(matches!(cmds.first(), Some(EngineCommand::SetQueue { .. })));
}

#[test]
fn queue_completed_on_an_empty_player_hands_over_an_empty_queue() {
    let mut p = Player::new();
    p.set_repeat(Repeat::All);
    let cmds = p.on_playback_state(10);
    assert_eq!(
        cmds,
        vec![EngineCommand::SetQueue { ids: vec![], start_index: 0 }, EngineCommand::Play]
    );
    assert_eq!(p.state().index, Some(0));
    assert!(p.state().current().is_none());
    assert!(p.next_track().is_empty());
    assert!(p.previous_track().is_empty());
    p.on_now_playing("x", 5);
    assert!(p.state().queue.is_empty());
}

#[test]
fn now_playing_resyncs_index_when_engine_disagrees() {
    let mut p = loaded();
    p.on_now_playing("3", 123_000);
    assert_eq!(p.state().index, Some(2));
    assert_eq!(p.state().current().unwrap().duration_ms, 123_000);
}

#[test]
fn now_playing_for_unknown_id_leaves_index_alone() {
    let mut p = loaded();
    p.on_now_playing("does-not-exist", 1000);
    assert_eq!(p.state().index, Some(0));
}

#[test]
fn shuffle_and_repeat_report_the_new_setting() {
    let mut p = loaded();
    assert_eq!(p.toggle_shuffle(), vec![EngineCommand::SetShuffle { on: true }]);
    assert_eq!(p.toggle_shuffle(), vec![EngineCommand::SetShuffle { on: false }]);
    assert_eq!(p.cycle_repeat(), vec![EngineCommand::SetRepeat { mode: 2 }]);
    assert_eq!(p.state().repeat, Repeat::All);
    assert_eq!(p.cycle_repeat(), vec![EngineCommand::SetRepeat { mode: 1 }]);
    assert_eq!(p.state().repeat, Repeat::One);
    assert_eq!(p.cycle_repeat(), vec![EngineCommand::SetRepeat { mode: 0 }]);
    assert_eq!(p.state().repeat, Repeat::Off);
}

#[test]
fn previous_comes_back_after_next() {
    let mut p = loaded();
    p.next_track();
    p.previous_track();
    assert_eq!(p.state().index, Some(0));
    p.set_repeat(Repeat::All);
    p.previous_track();
    assert_eq!(p.state().index, Some(2));
    p.next_track();
    assert_eq!(p.state().index, Some(0));
}

#[test]
fn a_reset_forgets_the_queue_and_keeps_the_settings() {
    let mut p = loaded();
    p.set_volume(20);
    p.set_repeat(Repeat::One);
    p.on_position(1234);
    p.reset_queue();
    let s: PlayerState = p.state().clone();
    assert!(s.queue.is_empty());
    assert_eq!(s.index, None);
    assert_eq!(s.position_ms, 0);
    assert_eq!(s.status, Status::Idle);
    assert_eq!(s.volume, 20);
    assert_eq!(s.repeat, Repeat::One);
    assert!(!s.is_active());
    p.set_status(Status::Stalled);
    assert!(p.state().is_active());
}

#[test]
fn defaults_are_those_of_a_fresh_player() {
    let s = PlayerState::default();
    assert_eq!(s.volume, 100);
    assert_eq!(s.repeat, Repeat::default());
    assert_eq!(Player::default().state(), &s);
}
