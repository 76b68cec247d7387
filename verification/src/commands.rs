//! What each command of the interface, and each event of the web player, comes
//! to.
//!
//! One module, so that the boundary can be looked over: if it is not here, the
//! interface cannot do it.

use vstd::prelude::*;
use vstd::hash_set::StringHashSet;
use crate::api;
use crate::auth::Tokens;
use crate::db::{LibraryCounts, SongRow};
use crate::lastfm;
use crate::lyrics;
use crate::outside;
use crate::player;
use crate::player::{EngineCommand, Playback, Player, PlayerState, Repeat, Status, Track};
use crate::settings::{Settings, Source};
use crate::stream;
use crate::subsonic;
use crate::text;

verus! {

// ── the native backend ─────────────────────────────────────────────────

/// What an [`EngineCommand`] means to the native backend. The player has already
/// moved its own index, so most commands mean to load the current track.
#[derive(Debug, Clone, Copy, PartialEq, Eq, Structural)]
pub enum NativeAction {
    LoadCurrent,
    Play,
    Pause,
    Seek(u64),
    Volume(u8),
    Ignore,
}

/// What a command means to the native backend.
pub open spec fn native(cmd: EngineCommand) -> NativeAction {
    match cmd {
        EngineCommand::SetQueue { ids, start_index } => NativeAction::LoadCurrent,
        EngineCommand::SkipNext => NativeAction::LoadCurrent,
        EngineCommand::SkipPrevious => NativeAction::LoadCurrent,
        EngineCommand::Play => NativeAction::Play,
        EngineCommand::Pause => NativeAction::Pause,
        EngineCommand::Seek { ms } => NativeAction::Seek(ms),
        EngineCommand::SetVolume { percent } => NativeAction::Volume(percent),
        EngineCommand::Prewarm { id } => NativeAction::Ignore,
        EngineCommand::SetShuffle { on } => NativeAction::Ignore,
        EngineCommand::SetRepeat { mode } => NativeAction::Ignore,
    }
}

/// What a command means to the native backend.
pub fn native_action(cmd: &EngineCommand) -> (r: NativeAction)
    ensures
        r == native(*cmd),
        cmd is SetQueue || cmd is SkipNext || cmd is SkipPrevious <==> r == NativeAction::LoadCurrent,
        cmd is Play <==> r == NativeAction::Play,
        cmd is Pause <==> r == NativeAction::Pause,
        *cmd matches EngineCommand::Seek { ms } ==> r == NativeAction::Seek(ms),
        *cmd matches EngineCommand::SetVolume { percent } ==> r == NativeAction::Volume(percent),
        cmd is Prewarm || cmd is SetShuffle || cmd is SetRepeat <==> r == NativeAction::Ignore,
{
    match cmd {
        EngineCommand::SetQueue { ids: _, start_index: _ } => NativeAction::LoadCurrent,
        EngineCommand::SkipNext => NativeAction::LoadCurrent,
        EngineCommand::SkipPrevious => NativeAction::LoadCurrent,
        EngineCommand::Play => NativeAction::Play,
        EngineCommand::Pause => NativeAction::Pause,
        EngineCommand::Seek { ms } => NativeAction::Seek(*ms),
        EngineCommand::SetVolume { percent } => NativeAction::Volume(*percent),
        EngineCommand::Prewarm { id: _ } => NativeAction::Ignore,
        EngineCommand::SetShuffle { on: _ } => NativeAction::Ignore,
        EngineCommand::SetRepeat { mode: _ } => NativeAction::Ignore,
    }
}

/// What the native backend does about a command. Playing with nothing loaded
/// would do nothing: after the queue has ended, or after a stop, the current
/// track is loaded again instead.
pub fn run_native(cmd: &EngineCommand, sink_empty: bool, loading: bool) -> (r: NativeAction)
    ensures
        r == (if native(*cmd) == NativeAction::Play && sink_empty && !loading {
            NativeAction::LoadCurrent
        } else {
            native(*cmd)
        }),
        cmd is Play && sink_empty && !loading ==> r == NativeAction::LoadCurrent,
        cmd is Play && !(sink_empty && !loading) ==> r == NativeAction::Play,
        cmd is Pause ==> r == NativeAction::Pause,
        *cmd matches EngineCommand::Seek { ms } ==> r == NativeAction::Seek(ms),
        *cmd matches EngineCommand::SetVolume { percent } ==> r == NativeAction::Volume(percent),
        cmd is SetQueue || cmd is SkipNext || cmd is SkipPrevious ==> r
            == NativeAction::LoadCurrent,
        cmd is Prewarm || cmd is SetShuffle || cmd is SetRepeat ==> r == NativeAction::Ignore,
{
    let action = native_action(cmd);
    match action {
        NativeAction::Play => if sink_empty && !loading {
            NativeAction::LoadCurrent
        } else {
            action
        },
        _ => action,
    }
}

/// How the current track is loaded.
#[derive(Debug, PartialEq, Eq)]
pub enum LoadPlan {
    /// There is nothing to load, or nothing to load it with.
    Nothing,
    /// A local track's id is its path; there is nothing to fetch.
    OpenFile { path: String },
    /// Make room in the cache, sparing `path`, then fetch into it.
    Stream { url: String, dir: String, path: String },
}

/// Decides how the current track is loaded.
pub fn load_current(
    state: &PlayerState,
    source: Source,
    client: Option<&subsonic::Client>,
    data_dir: Option<String>,
) -> (r: LoadPlan)
    ensures
        match state@.current() {
            None => r == LoadPlan::Nothing,
            Some(t) => if source == Source::Local {
                r == (LoadPlan::OpenFile { path: t.id })
            } else if client is None || data_dir is None {
                r == LoadPlan::Nothing
            } else {
                &&& r is Stream
                &&& outside::is_adjoined(data_dir->0@, stream::CACHE_DIR@, r->dir@)
                &&& outside::is_adjoined(r->dir@, stream::cache_name(t.id@), r->Stream_path@)
                &&& exists|nanos: nat|
                    r->url@ == subsonic::signed(
                        client->0.base(),
                        "stream"@,
                        client->0.user(),
                        subsonic::token_of(
                            client->0.password(),
                            #[trigger] subsonic::salt_of(nanos, client->0.process()),
                        ),
                        subsonic::salt_of(nanos, client->0.process()),
                        seq![("id"@, t.id@)],
                    )
            },
        },
{
    let track = match state.current() {
        Some(t) => t,
        None => return LoadPlan::Nothing,
    };
    if source == Source::Local {
        return LoadPlan::OpenFile { path: track.id.clone() };
    }
    let client = match client {
        Some(c) => c,
        None => return LoadPlan::Nothing,
    };
    match stream::cache_dir(data_dir) {
        Some(dir) => {
            let path = stream::cache_path(dir.as_str(), track.id.as_str());
            let url = client.stream_url(track.id.as_str());
            LoadPlan::Stream { url, dir, path }
        },
        None => LoadPlan::Nothing,
    }
}

// ── announcing what plays ──────────────────────────────────────────────

/// What has been announced.
#[derive(Debug, PartialEq, Eq)]
pub struct NowReported {
    pub track_id: Option<String>,
    pub scrobbled: bool,
}

impl Default for NowReported {
    fn default() -> (r: Self)
        ensures
            r.track_id is None,
            !r.scrobbled,
    {
        NowReported { track_id: None, scrobbled: false }
    }
}

/// What is to be announced.
#[derive(Debug, PartialEq, Eq)]
pub struct Announcement {
    /// Take the presence card down.
    pub clear: bool,
    /// Announce that this track plays, and show its card.
    pub now_playing: Option<Track>,
    /// Report that this track was played.
    pub played: Option<String>,
}

/// Whether nothing plays.
pub open spec fn is_stopped(p: Playback) -> bool {
    p.status == Status::Idle || p.status == Status::Ended || p.current() is None
}

impl NowReported {
    /// The track that plays has not been announced.
    pub open spec fn is_news(self, t: Track) -> bool {
        self.track_id is None || self.track_id->0@ != t.id@
    }

    /// The play is to be reported now: it counts, and has not been.
    pub open spec fn is_due(self, p: Playback) -> bool {
        let t = p.current()->0;
        (self.is_news(t) || !self.scrobbled) && lastfm::counts(p.position_ms, t.duration_ms)
    }

    /// Takes note of what the player shows; what is to be announced. A track is
    /// announced once, and reported as played once. When playback stops the card
    /// is taken down, or it would keep claiming that someone listens.
    pub fn report(&mut self, snapshot: &PlayerState) -> (r: Announcement)
        ensures
            if is_stopped(snapshot@) {
                &&& r.clear == (old(self).track_id is Some)
                &&& r.now_playing is None
                &&& r.played is None
                &&& final(self).track_id is None
                &&& final(self).scrobbled == (old(self).scrobbled && old(self).track_id is None)
            } else {
                let t = snapshot@.current()->0;
                &&& !r.clear
                &&& r.now_playing == (if old(self).is_news(t) {
                    Some(t)
                } else {
                    None
                })
                &&& r.played == (if old(self).is_due(snapshot@) {
                    Some(t.id)
                } else {
                    None
                })
                &&& final(self).track_id is Some
                &&& final(self).track_id->0@ == t.id@
                &&& final(self).scrobbled == (old(self).is_due(snapshot@) || (!old(self).is_news(t)
                    && old(self).scrobbled))
            },
    {
        let mut out = Announcement { clear: false, now_playing: None, played: None };
        let quiet = match snapshot.status {
            Status::Idle => true,
            Status::Ended => true,
            _ => false,
        };
        let track = match snapshot.current() {
            Some(t) => if quiet {
                None
            } else {
                Some(t)
            },
            None => None,
        };
        match track {
            None => {
                if self.track_id.is_some() {
                    self.track_id = None;
                    self.scrobbled = false;
                    out.clear = true;
                }
            },
            Some(t) => {
                let news = match &self.track_id {
                    Some(id) => !text::same(id.as_str(), t.id.as_str()),
                    None => true,
                };
                if news {
                    self.track_id = Some(t.id.clone());
                    self.scrobbled = false;
                    out.now_playing = Some(t.clone());
                }
                if !self.scrobbled && lastfm::scrobble_due(snapshot.position_ms, t.duration_ms) {
                    self.scrobbled = true;
                    out.played = Some(t.id.clone());
                }
            },
        }
        out
    }
}

/// When nothing is announced, when a track is news, and when it has been played
/// long enough: half of it or four minutes, and never one under half a minute.
pub proof fn lemma_what_is_announced(now: NowReported, p: Playback)
    ensures
        is_stopped(p) <==> p.status == Status::Idle || p.status == Status::Ended || p.index is None
            || p.index->0 >= p.queue.len(),
        !is_stopped(p) ==> {
            let t = p.queue[p.index->0 as int];
            &&& now.is_news(t) <==> now.track_id is None || now.track_id->0@ != t.id@
            &&& now.is_due(p) <==> (now.track_id is None || now.track_id->0@ != t.id@
                || !now.scrobbled) && t.duration_ms >= 30_000 && (2 * p.position_ms + 1
                >= t.duration_ms || p.position_ms >= 240_000)
        },
{
}

/// Once a track has been announced and reported as played, neither happens again
/// while it goes on.
pub proof fn lemma_played_once(now: NowReported, p: Playback)
    requires
        !is_stopped(p),
        now.track_id is Some,
        now.track_id->0@ == p.current()->0.id@,
        now.scrobbled,
    ensures
        !now.is_news(p.current()->0),
        !now.is_due(p),
{
}

// ── the web player ─────────────────────────────────────────────────────

/// Whether the web player is up, and whether the user has been asked to sign in.
#[derive(Debug, Clone, Copy, PartialEq, Eq, Structural)]
pub struct EngineGate {
    pub ready: bool,
    pub login_prompted: bool,
}

/// What a readiness report of the web player comes to.
#[derive(Debug, PartialEq, Eq)]
pub enum ReadyStep {
    /// Hide the window, tell the interface, and warm playback up.
    Ready,
    /// Nothing to do.
    Ignore,
    /// Open the login.
    PromptLogin,
    /// Tell the interface why there is no playback.
    Unavailable(String),
}

impl EngineGate {
    /// The web player reports whether it is ready, and why if not. Once it has
    /// been ready only a lost login is news; the login is offered once.
    pub fn on_ready(&mut self, ok: bool, reason: String) -> (r: ReadyStep)
        ensures
            if ok {
                &&& r == ReadyStep::Ready
                &&& *final(self) == (EngineGate { ready: true, login_prompted: false })
            } else if reason@ == "unauthorized"@ {
                &&& r == (if old(self).login_prompted {
                    ReadyStep::Ignore
                } else {
                    ReadyStep::PromptLogin
                })
                &&& *final(self) == (EngineGate { login_prompted: true, ..*old(self) })
            } else {
                &&& *final(self) == *old(self)
                &&& if old(self).ready {
                    r == ReadyStep::Ignore
                } else {
                    r == ReadyStep::Unavailable(reason)
                }
            },
    {
        if ok {
            self.ready = true;
            self.login_prompted = false;
            return ReadyStep::Ready;
        }
        if text::same(reason.as_str(), "unauthorized") {
            if self.login_prompted {
                return ReadyStep::Ignore;
            }
            self.login_prompted = true;
            return ReadyStep::PromptLogin;
        }
        if self.ready {
            return ReadyStep::Ignore;
        }
        ReadyStep::Unavailable(reason)
    }
}

/// An event of the web player, read.
#[derive(Debug, PartialEq, Eq)]
pub enum EngineEvent {
    /// Ids that the catalog refuses to resolve.
    Unresolvable(Vec<String>),
    PlaybackState(Option<i64>),
    Position(Option<u64>),
    NowPlaying { id: Option<String>, duration_ms: Option<u64> },
    Authorization(Option<bool>),
    RecentTracks(Vec<Track>),
    Other,
}

/// Whether an event is what a kind and its data say. The data of a kind is looked
/// up by name, and may be missing.
pub open spec fn is_event(
    kind: Seq<char>,
    data: Seq<char>,
    tracks: Seq<Track>,
    ev: EngineEvent,
) -> bool {
    if kind == "unresolvable"@ {
        ev is Unresolvable && text::views(ev->Unresolvable_0@) == (match outside::json_get(
            data,
            "ids"@,
        ) {
            Some(t) => match outside::json_texts(t) {
                Some(ids) => ids,
                None => Seq::empty(),
            },
            None => Seq::empty(),
        })
    } else if kind == "playbackState"@ {
        ev is PlaybackState && ev->PlaybackState_0 == (match outside::json_get(data, "state"@) {
            Some(t) => outside::json_int(t),
            None => None,
        })
    } else if kind == "position"@ {
        ev is Position && ev->Position_0 == nat_member(data, "ms"@)
    } else if kind == "nowPlaying"@ {
        ev is NowPlaying && text::view_of(ev->id) == (match outside::json_get(data, "id"@) {
            Some(t) => outside::json_text(t),
            None => None,
        }) && ev->duration_ms == nat_member(data, "durationMs"@)
    } else if kind == "authorization"@ {
        ev is Authorization && ev->Authorization_0 == (match outside::json_get(
            data,
            "authorized"@,
        ) {
            Some(t) => outside::json_truth(t),
            None => None,
        })
    } else if kind == "recentTracks"@ {
        ev is RecentTracks && ev->RecentTracks_0@ == tracks
    } else {
        ev is Other
    }
}

/// A number that is not negative, by name.
pub open spec fn nat_member(data: Seq<char>, name: Seq<char>) -> Option<u64> {
    match outside::json_get(data, name) {
        Some(t) => outside::json_nat(t),
        None => None,
    }
}

fn read_nat(data: &str, name: &str) -> (r: Option<u64>)
    ensures
        r == nat_member(data@, name@),
{
    match outside::json_member(data, name) {
        Some(t) => outside::json_u64(t.as_str()),
        None => None,
    }
}

/// What an event says is what its payload says under the name it goes by.
pub proof fn lemma_events_say_what_was_sent(
    kind: Seq<char>,
    data: Seq<char>,
    tracks: Seq<Track>,
    ev: EngineEvent,
)
    requires
        is_event(kind, data, tracks, ev),
    ensures
        kind == "unresolvable"@ <==> ev is Unresolvable,
        kind == "playbackState"@ <==> ev is PlaybackState,
        kind == "position"@ <==> ev is Position,
        kind == "nowPlaying"@ <==> ev is NowPlaying,
        kind == "authorization"@ <==> ev is Authorization,
        kind == "recentTracks"@ <==> ev is RecentTracks,
        ev is RecentTracks ==> ev->RecentTracks_0@ == tracks,
        ev is PlaybackState && outside::json_get(data, "state"@) is Some ==> ev->PlaybackState_0
            == outside::json_int(outside::json_get(data, "state"@)->0),
        ev is PlaybackState && outside::json_get(data, "state"@) is None
            ==> ev->PlaybackState_0 is None,
        ev is Position && outside::json_get(data, "ms"@) is Some ==> ev->Position_0
            == outside::json_nat(outside::json_get(data, "ms"@)->0),
        ev is Position && outside::json_get(data, "ms"@) is None ==> ev->Position_0 is None,
        ev is NowPlaying && outside::json_get(data, "id"@) is Some ==> text::view_of(ev->id)
            == outside::json_text(outside::json_get(data, "id"@)->0),
        ev is NowPlaying && outside::json_get(data, "id"@) is None ==> ev->id is None,
        ev is NowPlaying && outside::json_get(data, "durationMs"@) is Some ==> ev->duration_ms
            == outside::json_nat(outside::json_get(data, "durationMs"@)->0),
        ev is Authorization && outside::json_get(data, "authorized"@) is Some
            ==> ev->Authorization_0 == outside::json_truth(
            outside::json_get(data, "authorized"@)->0,
        ),
        ev is Unresolvable && outside::json_get(data, "ids"@) is Some && outside::json_texts(
            outside::json_get(data, "ids"@)->0,
        ) is Some ==> text::views(ev->Unresolvable_0@) == outside::json_texts(
            outside::json_get(data, "ids"@)->0,
        )->0,
        ev is Unresolvable && (outside::json_get(data, "ids"@) is None || outside::json_texts(
            outside::json_get(data, "ids"@)->0,
        ) is None) ==> ev->Unresolvable_0@.len() == 0,
{
    reveal_strlit("unresolvable");
    reveal_strlit("playbackState");
    reveal_strlit("position");
    reveal_strlit("nowPlaying");
    reveal_strlit("authorization");
    reveal_strlit("recentTracks");
    assert("unresolvable"@.len() == 12 && "recentTracks"@.len() == 12);
    assert("unresolvable"@[0] == 'u' && "recentTracks"@[0] == 'r');
    assert("playbackState"@.len() == 13 && "authorization"@.len() == 13);
    assert("playbackState"@[0] == 'p' && "authorization"@[0] == 'a');
    assert("position"@.len() == 8 && "nowPlaying"@.len() == 10);
    if ev is Unresolvable && text::views(ev->Unresolvable_0@).len() == 0 {
        assert(ev->Unresolvable_0@.len() == 0);
    }
}

/// What an event does to playback: each changes what it speaks of, and nothing else.
pub proof fn lemma_events_change_what_they_say(
    before: Playback,
    ev: EngineEvent,
    after: Playback,
    r: EventOutcome,
)
    requires
        is_outcome(before, ev, after, r),
    ensures
        after.volume == before.volume,
        after.shuffle == before.shuffle,
        after.repeat == before.repeat,
        ev is Unresolvable ==> after == before && r.commands is None && r.unresolvable@
            == ev->Unresolvable_0@,
        !(ev is Unresolvable) ==> r.commands is Some && r.unresolvable@.len() == 0,
        r.auth_lost <==> ev is Authorization && (ev->Authorization_0 is None
            || !ev->Authorization_0->0),
        ev is Authorization || ev is Other ==> after == before && r.commands->0@.len() == 0,
        ev is Position && ev->Position_0 is Some ==> after.position_ms == ev->Position_0->0
            && after.queue == before.queue && after.index == before.index && after.status
            == before.status,
        ev is Position && ev->Position_0 is None ==> after == before,
        ev is PlaybackState && ev->PlaybackState_0 is None ==> after == before,
        ev is PlaybackState ==> after.queue == before.queue,
        ev == EngineEvent::PlaybackState(Some(2)) ==> after.status == Status::Playing,
        ev == EngineEvent::PlaybackState(Some(3)) ==> after.status == Status::Paused,
        ev == EngineEvent::PlaybackState(Some(10)) && before.repeat != Repeat::Off ==> after.index
            == Some(0usize) && after.position_ms == 0 && after.status == Status::Loading,
        ev == EngineEvent::PlaybackState(Some(10)) && before.repeat == Repeat::Off ==> after.status
            == Status::Ended && r.commands->0@.len() == 0,
        ev == EngineEvent::PlaybackState(Some(5)) && before.repeat == Repeat::One
            ==> after.position_ms == 0 && r.commands->0@ == seq![
            EngineCommand::Seek { ms: 0 },
            EngineCommand::Play,
        ],
        ev is NowPlaying ==> after.status == before.status && after.position_ms
            == before.position_ms && after.queue.len() == before.queue.len() && r.commands->0@.len()
            == 0,
        ev is NowPlaying && ev->id is Some && (exists|i: int|
            0 <= i < before.queue.len() && (#[trigger] before.queue[i]).id@ == ev->id->0@)
            ==> after.index is Some && after.index->0 < before.queue.len()
            && before.queue[after.index->0 as int].id@ == ev->id->0@,
        ev is NowPlaying && ev->id is Some && ev->duration_ms is Some && ev->duration_ms->0 > 0
            && after.index is Some && after.index->0 < before.queue.len()
            ==> after.queue[after.index->0 as int].duration_ms == ev->duration_ms->0,
        ev is RecentTracks && ev->RecentTracks_0@.len() > 0 ==> after.queue == ev->RecentTracks_0@
            && after.index == Some(0usize) && after.position_ms == 0 && after.status
            == Status::Loading,
        ev is RecentTracks && ev->RecentTracks_0@.len() == 0 ==> after == before,
{
    if ev is NowPlaying && ev->id is Some && exists|i: int|
        0 <= i < before.queue.len() && (#[trigger] before.queue[i]).id@ == ev->id->0@ {
        let i = choose|i: int|
            0 <= i < before.queue.len() && (#[trigger] before.queue[i]).id@ == ev->id->0@;
        player::lemma_queued(before.queue, ev->id->0@, i);
    }
}

/// Reads an event of the web player. `data` is JSON; `tracks` are those that it
/// lists, if it lists any.
pub fn read_event(kind: &str, data: &str, tracks: Vec<Track>) -> (r: EngineEvent)
    ensures
        is_event(kind@, data@, tracks@, r),
{
    if text::same(kind, "unresolvable") {
        let ids: Vec<String> = match outside::json_member(data, "ids") {
            Some(t) => match outside::json_strings(t.as_str()) {
                Some(ids) => ids,
                None => Vec::new(),
            },
            None => Vec::new(),
        };
        assert(text::views(Seq::<String>::empty()) =~= Seq::empty());
        return EngineEvent::Unresolvable(ids);
    }
    if text::same(kind, "playbackState") {
        let state: Option<i64> = match outside::json_member(data, "state") {
            Some(t) => outside::json_i64(t.as_str()),
            None => None,
        };
        return EngineEvent::PlaybackState(state);
    }
    if text::same(kind, "position") {
        return EngineEvent::Position(read_nat(data, "ms"));
    }
    if text::same(kind, "nowPlaying") {
        let id = match outside::json_member(data, "id") {
            Some(t) => outside::json_str(t.as_str()),
            None => None,
        };
        return EngineEvent::NowPlaying { id, duration_ms: read_nat(data, "durationMs") };
    }
    if text::same(kind, "authorization") {
        let authorized = match outside::json_member(data, "authorized") {
            Some(t) => outside::json_bool(t.as_str()),
            None => None,
        };
        return EngineEvent::Authorization(authorized);
    }
    if text::same(kind, "recentTracks") {
        return EngineEvent::RecentTracks(tracks);
    }
    EngineEvent::Other
}

/// What an event comes to.
#[derive(Debug, PartialEq, Eq)]
pub struct EventOutcome {
    /// Remember that these cannot be played.
    pub unresolvable: Vec<String>,
    /// Tell the interface that the login is lost.
    pub auth_lost: bool,
    /// Carry these out, and show the player's state.
    pub commands: Option<Vec<EngineCommand>>,
}

/// Whether an event takes the player from one state to another, with these
/// consequences.
pub open spec fn is_outcome(
    before: Playback,
    ev: EngineEvent,
    after: Playback,
    r: EventOutcome,
) -> bool {
    &&& ev is Unresolvable ==> r.unresolvable@ == ev->Unresolvable_0@ && r.commands is None
    &&& !(ev is Unresolvable) ==> r.unresolvable@.len() == 0 && r.commands is Some
    &&& r.auth_lost == (ev is Authorization && ev->Authorization_0 != Some(true))
    &&& match ev {
        EngineEvent::Unresolvable(ids) => after == before,
        EngineEvent::PlaybackState(Some(raw)) => {
            let seen = Playback { status: player::musickit_status(raw as int), ..before };
            if raw == 5 && before.repeat == Repeat::One {
                &&& after == (Playback { position_ms: 0, ..seen })
                &&& r.commands->0@ == seq![EngineCommand::Seek { ms: 0 }, EngineCommand::Play]
            } else if raw == 10 && before.repeat != Repeat::Off {
                &&& after == before.loading(0)
                &&& player::loads_queue(r.commands->0@, before.queue, 0)
            } else {
                &&& after == seen
                &&& r.commands->0@.len() == 0
            }
        },
        EngineEvent::Position(Some(ms)) => {
            &&& after == (Playback { position_ms: ms, ..before })
            &&& r.commands->0@.len() == 0
        },
        EngineEvent::NowPlaying { id: Some(id), duration_ms } => {
            let at = after.index;
            let known = duration_ms is Some && duration_ms->0 > 0;
            &&& player::queued(before.queue, id@) ==> at is Some && player::first_at(
                before.queue,
                id@,
                at->0 as int,
            )
            &&& !player::queued(before.queue, id@) ==> at == before.index
            &&& after == (Playback {
                index: at,
                queue: if known && at is Some && at->0 < before.queue.len() {
                    player::with_duration(before.queue, at->0 as int, duration_ms->0)
                } else {
                    before.queue
                },
                ..before
            })
            &&& r.commands->0@.len() == 0
        },
        EngineEvent::RecentTracks(tracks) => if tracks@.len() > 0 {
            &&& after == (Playback { queue: tracks@, ..before }).loading(0)
            &&& player::loads_queue(r.commands->0@, tracks@, 0)
        } else {
            after == before && r.commands->0@.len() == 0
        },
        _ => after == before && r.commands->0@.len() == 0,
    }
}

/// What an event does to the player, and what follows from it.
pub fn apply_event(player: &mut Player, ev: EngineEvent) -> (r: EventOutcome)
    requires
        old(player)@.wf(),
    ensures
        final(player)@.wf(),
        is_outcome(old(player)@, ev, final(player)@, r),
{
    let mut lost = false;
    let commands: Vec<EngineCommand> = match ev {
        EngineEvent::Unresolvable(ids) => {
            return EventOutcome { unresolvable: ids, auth_lost: false, commands: None };
        },
        EngineEvent::PlaybackState(raw) => match raw {
            Some(r) => player.on_playback_state(r),
            None => Vec::new(),
        },
        EngineEvent::Position(ms) => {
            if let Some(ms) = ms {
                player.on_position(ms);
            }
            Vec::new()
        },
        EngineEvent::NowPlaying { id, duration_ms } => {
            if let Some(id) = id {
                let duration: u64 = match duration_ms {
                    Some(d) => d,
                    None => 0,
                };
                player.on_now_playing(id.as_str(), duration);
            }
            Vec::new()
        },
        EngineEvent::Authorization(ok) => {
            lost = match ok {
                Some(b) => !b,
                None => true,
            };
            Vec::new()
        },
        EngineEvent::RecentTracks(tracks) => player.play_queue(tracks, 0),
        EngineEvent::Other => Vec::new(),
    };
    EventOutcome { unresolvable: Vec::new(), auth_lost: lost, commands: Some(commands) }
}

/// Reads an event of the web player and applies it.
pub fn engine_event(player: &mut Player, kind: &str, data: &str, tracks: Vec<Track>) -> (r:
    EventOutcome)
    requires
        old(player)@.wf(),
    ensures
        final(player)@.wf(),
        exists|ev: EngineEvent| #[trigger]
            is_event(kind@, data@, tracks@, ev) && is_outcome(
                old(player)@,
                ev,
                final(player)@,
                r,
            ),
{
    let ev = read_event(kind, data, tracks);
    let ghost read = ev;
    assert(is_event(kind@, data@, tracks@, read));
    apply_event(player, ev)
}

// ── queueing ───────────────────────────────────────────────────────────

/// Which id the playback backend knows a song by. The catalog plays by catalog
/// id, and a song without one cannot be played there. The native sources play by
/// their own ids, and never have another.
pub open spec fn playable(source: Source, s: SongRow) -> Option<String> {
    match source {
        Source::Apple | Source::Spotify => s.catalog_id,
        Source::Navidrome | Source::Local => Some(s.id),
    }
}

/// Which id the playback backend knows a song by.
pub fn playable_id(source: Source, s: &SongRow) -> (r: Option<String>)
    ensures
        r == playable(source, *s),
        source == Source::Apple || source == Source::Spotify ==> r == s.catalog_id,
        source == Source::Navidrome || source == Source::Local ==> r == Some(s.id),
{
    match source {
        Source::Apple => text::copy_opt(&s.catalog_id),
        Source::Spotify => text::copy_opt(&s.catalog_id),
        Source::Navidrome => Some(s.id.clone()),
        Source::Local => Some(s.id.clone()),
    }
}

/// Ids that are known not to play.
pub struct DeadIds {
    ids: StringHashSet,
}

impl View for DeadIds {
    type V = Set<Seq<char>>;

    closed spec fn view(&self) -> Set<Seq<char>> {
        self.ids@
    }
}

impl DeadIds {
    /// None are known.
    pub fn new() -> (r: Self)
        ensures
            r@ == Set::<Seq<char>>::empty(),
    {
        DeadIds { ids: StringHashSet::new() }
    }

    /// Another one is known.
    pub fn insert(&mut self, id: String)
        ensures
            final(self)@ == old(self)@.insert(id@),
    {
        self.ids.insert(id);
    }

    /// Whether one is known.
    pub fn contains(&self, id: &str) -> (r: bool)
        ensures
            r == self@.contains(id@),
    {
        self.ids.contains(id)
    }
}

/// Whether a song can be queued.
pub open spec fn is_playable(source: Source, dead: Set<Seq<char>>, s: SongRow) -> bool {
    playable(source, s) is Some && !dead.contains(playable(source, s)->0@)
}

/// The track a song is queued as.
pub open spec fn track_of(source: Source, s: SongRow) -> Track {
    Track {
        id: playable(source, s)->0,
        title: s.name,
        artist: s.artist_name,
        album: s.album_name,
        duration_ms: s.duration_ms,
    }
}

/// The queue that songs make: those that can be played, in order.
pub open spec fn queue_of(source: Source, dead: Set<Seq<char>>, songs: Seq<SongRow>) -> Seq<Track>
    decreases songs.len(),
{
    if songs.len() == 0 {
        Seq::empty()
    } else {
        let before = queue_of(source, dead, songs.drop_last());
        if is_playable(source, dead, songs.last()) {
            before.push(track_of(source, songs.last()))
        } else {
            before
        }
    }
}

/// The id of the song that was clicked.
pub open spec fn clicked_id(source: Source, songs: Seq<SongRow>, start: usize) -> Option<Seq<char>> {
    if start < songs.len() {
        text::view_of(playable(source, songs[start as int]))
    } else {
        None
    }
}

/// Whether a queue of songs starts at `at`: at the clicked song if it is queued,
/// else at its old place or the last track.
pub open spec fn starts_at(
    source: Source,
    songs: Seq<SongRow>,
    queue: Seq<Track>,
    start: usize,
    at: int,
) -> bool {
    let clicked = clicked_id(source, songs, start);
    if clicked is Some && player::queued(queue, clicked->0) {
        player::first_at(queue, clicked->0, at)
    } else {
        at == (if start < queue.len() {
            start as int
        } else {
            queue.len() - 1
        })
    }
}

/// The queue that a selection makes, and where to start in it; `None` if nothing
/// in it can be played.
pub fn plan_queue(source: Source, songs: &Vec<SongRow>, dead: &DeadIds, start_index: usize) -> (r:
    Option<(Vec<Track>, usize)>)
    ensures
        match r {
            Some((queue, at)) => {
                &&& queue@.len() > 0
                &&& queue@ == queue_of(source, dead@, songs@)
                &&& at < queue@.len()
                &&& starts_at(source, songs@, queue@, start_index, at as int)
                &&& forall|k: int|
                    0 <= k < queue@.len() ==> !dead@.contains((#[trigger] queue@[k]).id@)
                &&& forall|k: int|
                    #![trigger queue@[k]]
                    0 <= k < queue@.len() ==> exists|j: int|
                        0 <= j < songs@.len() && queue@[k].title == (#[trigger] songs@[j]).name && queue@[k].artist
                            == songs@[j].artist_name && queue@[k].album == songs@[j].album_name
                            && queue@[k].duration_ms == songs@[j].duration_ms && Some(queue@[k].id) == (
                        if source == Source::Apple || source == Source::Spotify {
                            songs@[j].catalog_id
                        } else {
                            Some(songs@[j].id)
                        })
                &&& start_index < songs@.len() && (source == Source::Navidrome || source
                    == Source::Local) && !dead@.contains(songs@[start_index as int].id@)
                    ==> queue@[at as int].id@ == songs@[start_index as int].id@
                &&& start_index < songs@.len() && (source == Source::Apple || source
                    == Source::Spotify) && songs@[start_index as int].catalog_id is Some
                    && !dead@.contains(songs@[start_index as int].catalog_id->0@)
                    ==> queue@[at as int].id@ == songs@[start_index as int].catalog_id->0@
            },
            None => queue_of(source, dead@, songs@).len() == 0,
        },
{
    let clicked = if start_index < songs.len() {
        playable_id(source, &songs[start_index])
    } else {
        None
    };
    let mut queue: Vec<Track> = Vec::new();
    let mut i: usize = 0;
    assert(songs@.take(0) =~= Seq::empty());
    while i < songs.len()
        invariant
            i <= songs@.len(),
            queue@ == queue_of(source, dead@, songs@.take(i as int)),
        decreases songs@.len() - i,
    {
        let s = &songs[i];
        assert(songs@.take(i + 1).drop_last() =~= songs@.take(i as int));
        assert(songs@.take(i + 1).last() == *s);
        if let Some(id) = playable_id(source, s) {
            if !dead.contains(id.as_str()) {
                queue.push(
                    Track {
                        id,
                        title: s.name.clone(),
                        artist: s.artist_name.clone(),
                        album: s.album_name.clone(),
                        duration_ms: s.duration_ms,
                    },
                );
            }
        }
        i += 1;
    }
    assert(songs@.take(i as int) =~= songs@);
    if queue.len() == 0 {
        return None;
    }
    let found: Option<usize> = match &clicked {
        Some(id) => player::position_of(&queue, id.as_str()),
        None => None,
    };
    let at: usize = match found {
        Some(k) => k,
        None => if start_index < queue.len() {
            start_index
        } else {
            queue.len() - 1
        },
    };
    proof {
        assert forall|k: int| 0 <= k < queue@.len() implies !dead@.contains(
            (#[trigger] queue@[k]).id@,
        ) by {
            lemma_queue_plays(source, dead@, songs@, k);
        }
        assert forall|k: int|
            #![trigger queue@[k]]
            0 <= k < queue@.len() implies exists|j: int|
            0 <= j < songs@.len() && queue@[k].title == (#[trigger] songs@[j]).name && queue@[k].artist
                == songs@[j].artist_name && queue@[k].album == songs@[j].album_name
                && queue@[k].duration_ms == songs@[j].duration_ms && Some(queue@[k].id) == (
            if source == Source::Apple || source == Source::Spotify {
                songs@[j].catalog_id
            } else {
                Some(songs@[j].id)
            }) by {
            lemma_queue_plays(source, dead@, songs@, k);
            let j = choose|j: int|
                0 <= j < songs@.len() && is_playable(source, dead@, #[trigger] songs@[j])
                    && queue@[k] == track_of(source, songs@[j]);
            assert(queue@[k].title == songs@[j].name);
        }
        if start_index < songs@.len() && is_playable(source, dead@, songs@[start_index as int]) {
            lemma_queue_misses_nothing(source, dead@, songs@, start_index as int);
            let k = choose|k: int|
                0 <= k < queue@.len() && #[trigger] queue@[k] == track_of(
                    source,
                    songs@[start_index as int],
                );
            assert(queue@[k].id@ == clicked->0@);
        }
    }
    Some((queue, at))
}

/// What is queued is the selection, in its order, without what cannot be played: a
/// track for each song, with the song's title, artist, album and length.
pub proof fn lemma_queue_is_the_selection(
    source: Source,
    dead: Set<Seq<char>>,
    songs: Seq<SongRow>,
)
    ensures
        ({
            let catalog = source == Source::Apple || source == Source::Spotify;
            queue_of(source, dead, songs) == songs.filter(
                |s: SongRow|
                    if catalog {
                        s.catalog_id is Some && !dead.contains(s.catalog_id->0@)
                    } else {
                        !dead.contains(s.id@)
                    },
            ).map_values(
                |s: SongRow|
                    Track {
                        id: if catalog {
                            s.catalog_id->0
                        } else {
                            s.id
                        },
                        title: s.name,
                        artist: s.artist_name,
                        album: s.album_name,
                        duration_ms: s.duration_ms,
                    },
            )
        }),
    decreases songs.len(),
{
    let catalog = source == Source::Apple || source == Source::Spotify;
    let keep = |s: SongRow|
        if catalog {
            s.catalog_id is Some && !dead.contains(s.catalog_id->0@)
        } else {
            !dead.contains(s.id@)
        };
    let track = |s: SongRow|
        Track {
            id: if catalog {
                s.catalog_id->0
            } else {
                s.id
            },
            title: s.name,
            artist: s.artist_name,
            album: s.album_name,
            duration_ms: s.duration_ms,
        };
    reveal(Seq::filter);
    if songs.len() > 0 {
        let front = songs.drop_last();
        lemma_queue_is_the_selection(source, dead, front);
        assert(keep(songs.last()) == is_playable(source, dead, songs.last()));
        if keep(songs.last()) {
            assert(track(songs.last()) == track_of(source, songs.last()));
            assert(songs.filter(keep) =~= front.filter(keep).push(songs.last()));
            assert(songs.filter(keep).map_values(track) =~= front.filter(keep).map_values(track).push(
                track(songs.last()),
            ));
        }
    } else {
        assert(songs.filter(keep).map_values(track) =~= Seq::empty());
    }
}

/// Queues a selection and starts it; `None`, and the player untouched, if nothing
/// in it can be played.
pub fn enqueue(
    player: &mut Player,
    source: Source,
    songs: &Vec<SongRow>,
    dead: &DeadIds,
    start_index: usize,
) -> (r: Option<Vec<EngineCommand>>)
    requires
        old(player)@.wf(),
    ensures
        final(player)@.wf(),
        ({
            let queue = queue_of(source, dead@, songs@);
            match r {
                None => queue.len() == 0 && final(player)@ == old(player)@,
                Some(cmds) => {
                    let at = final(player)@.index;
                    &&& queue.len() > 0
                    &&& at is Some
                    &&& starts_at(source, songs@, queue, start_index, at->0 as int)
                    &&& final(player)@ == (Playback { queue, ..old(player)@ }).loading(at->0)
                    &&& player::loads_queue(cmds@, queue, at->0 as int)
                    &&& final(player)@.queue.len() > 0
                    &&& final(player)@.status == Status::Loading
                    &&& final(player)@.position_ms == 0
                    &&& forall|k: int|
                        #![trigger final(player)@.queue[k]]
                        0 <= k < final(player)@.queue.len() ==> exists|j: int|
                        0 <= j < songs@.len() && final(player)@.queue[k].title == (#[trigger] songs@[j]).name && final(player)@.queue[k].artist
                            == songs@[j].artist_name && final(player)@.queue[k].album == songs@[j].album_name
                            && final(player)@.queue[k].duration_ms == songs@[j].duration_ms && Some(final(player)@.queue[k].id) == (
                        if source == Source::Apple || source == Source::Spotify {
                            songs@[j].catalog_id
                        } else {
                            Some(songs@[j].id)
                        })
                },
            }
        }),
{
    match plan_queue(source, songs, dead, start_index) {
        Some((queue, at)) => Some(player.play_queue(queue, at)),
        None => None,
    }
}

/// Nothing that is known not to play is ever queued, and what is queued is named
/// as the backend knows it.
pub proof fn lemma_queue_plays(source: Source, dead: Set<Seq<char>>, songs: Seq<SongRow>, k: int)
    requires
        0 <= k < queue_of(source, dead, songs).len(),
    ensures
        !dead.contains(queue_of(source, dead, songs)[k].id@),
        exists|j: int|
            0 <= j < songs.len() && is_playable(source, dead, #[trigger] songs[j]) && queue_of(
                source,
                dead,
                songs,
            )[k] == track_of(source, songs[j]),
    decreases songs.len(),
{
    let before = songs.drop_last();
    if k < queue_of(source, dead, before).len() {
        lemma_queue_plays(source, dead, before, k);
        let j = choose|j: int|
            0 <= j < before.len() && is_playable(source, dead, #[trigger] before[j]) && queue_of(
                source,
                dead,
                before,
            )[k] == track_of(source, before[j]);
        assert(songs[j] == before[j]);
    } else {
        assert(songs[songs.len() - 1] == songs.last());
    }
}

/// Every song that can be played is queued.
pub proof fn lemma_queue_misses_nothing(
    source: Source,
    dead: Set<Seq<char>>,
    songs: Seq<SongRow>,
    j: int,
)
    requires
        0 <= j < songs.len(),
        is_playable(source, dead, songs[j]),
    ensures
        queue_of(source, dead, songs).contains(track_of(source, songs[j])),
    decreases songs.len(),
{
    let queue = queue_of(source, dead, songs);
    let before = queue_of(source, dead, songs.drop_last());
    if j < songs.len() - 1 {
        lemma_queue_misses_nothing(source, dead, songs.drop_last(), j);
        let k = choose|k: int| 0 <= k < before.len() && before[k] == track_of(source, songs[j]);
        assert(queue[k] == before[k]);
    } else {
        assert(queue[queue.len() - 1] == track_of(source, songs[j]));
    }
}

// ── the library ────────────────────────────────────────────────────────

/// How many rows are read, and from where: 200 unless asked otherwise, 1000 at
/// most.
pub fn page_request(limit: Option<u32>, offset: Option<u32>) -> (r: (u32, u32))
    ensures
        r.0 == (match limit {
            Some(n) => if n < 1000 {
                n
            } else {
                1000u32
            },
            None => 200u32,
        }),
        r.1 == (match offset {
            Some(n) => n,
            None => 0u32,
        }),
{
    let n: u32 = match limit {
        Some(n) => if n < 1000 {
            n
        } else {
            1000
        },
        None => 200,
    };
    let from: u32 = match offset {
        Some(n) => n,
        None => 0,
    };
    (n, from)
}

/// What is searched for, and how many rows at most; nothing for a blank query.
pub fn search_request(query: &str, limit: Option<u32>) -> (r: Option<(String, u32)>)
    ensures
        match r {
            Some((q, n)) => {
                &&& !text::blank(query@)
                &&& q@ == text::trimmed(query@)
                &&& n == (match limit {
                    Some(m) => if m < 500 {
                        m
                    } else {
                        500u32
                    },
                    None => 100u32,
                })
            },
            None => text::blank(query@),
        },
{
    if text::is_blank(query) {
        return None;
    }
    let n: u32 = match limit {
        Some(m) => if m < 500 {
            m
        } else {
            500
        },
        None => 100,
    };
    Some((text::trim(query), n))
}

/// What to do about the songs of an album or a playlist.
#[derive(Debug, PartialEq, Eq)]
pub enum Backfill {
    /// They are in the library.
    UseCached,
    /// Fetch them from the catalog.
    Fetch,
    /// They are not there, and nothing can be fetched.
    Refuse(String),
}

/// Decides about the songs of an album or a playlist (`what`), of which `cached`
/// are in the library, if that could be read. Only the catalog fills in on
/// demand; other sources mirror everything, so there an empty one means that the
/// sync is not done.
pub fn backfill(cached: Option<usize>, source: Source, what: &str) -> (r: Backfill)
    ensures
        if cached is Some && cached->0 > 0 {
            r == Backfill::UseCached
        } else if source == Source::Apple {
            r == Backfill::Fetch
        } else {
            r is Refuse && r->Refuse_0@ == "no tracks for this "@ + what@
                + " yet - try syncing your library"@
        },
{
    if let Some(n) = cached {
        if n > 0 {
            return Backfill::UseCached;
        }
    }
    if source == Source::Apple {
        return Backfill::Fetch;
    }
    let mut out = "no tracks for this ".to_string();
    out.append(what);
    out.append(" yet - try syncing your library");
    Backfill::Refuse(out)
}

/// What a fetch that found `n` tracks comes to.
pub fn fetched_tracks(n: usize, what: &str) -> (r: Result<(), String>)
    ensures
        match r {
            Ok(_) => n > 0,
            Err(e) => n == 0 && e@ == what@ + " has no tracks"@,
        },
{
    if n == 0 {
        return Err(text::concat(what, " has no tracks"));
    }
    Ok(())
}

/// What is said when nothing in an album or a playlist could be queued.
pub fn nothing_playable(what: &str) -> (r: String)
    ensures
        r@ == "no tracks in this "@ + what@ + " are playable"@,
{
    let mut out = "no tracks in this ".to_string();
    out.append(what);
    out.append(" are playable");
    out
}

/// A client of the catalog, for whoever is signed in.
pub fn api_client(tokens: Option<Tokens>) -> (r: Result<api::Client, String>)
    ensures
        match r {
            Ok(c) => tokens is Some && tokens->0.complete() && c.sends() == tokens->0,
            Err(e) => (tokens is None || !tokens->0.complete()) && e@ == "not signed in"@,
        },
{
    match tokens {
        Some(t) => if t.is_complete() {
            Ok(api::Client::new(t))
        } else {
            Err("not signed in".to_string())
        },
        None => Err("not signed in".to_string()),
    }
}

// ── lyrics ─────────────────────────────────────────────────────────────

/// The lyrics of a track as they are shown.
#[derive(Debug, PartialEq, Eq)]
pub struct Lyrics {
    pub lines: Vec<lyrics::Line>,
    pub plain: Option<String>,
}

/// The entries of timed lyrics, in the order of the file.
pub open spec fn entries_of(synced: Option<String>) -> Seq<lyrics::Timed> {
    match synced {
        Some(s) => lyrics::timed(s@),
        None => Seq::empty(),
    }
}

/// Whether lyrics show these texts.
pub open spec fn shows(l: Lyrics, synced: Option<String>, plain: Option<String>) -> bool {
    &&& l.plain == plain
    &&& lyrics::is_sorted_from(l.lines@, entries_of(synced))
    &&& lyrics::in_time_order(l.lines@)
}

/// Lyrics as they are shown.
pub fn show_lyrics(synced: Option<String>, plain: Option<String>) -> (r: Lyrics)
    ensures
        shows(r, synced, plain),
        r.plain == plain,
        synced is Some ==> lyrics::is_sorted_from(r.lines@, lyrics::timed(synced->0@)),
        synced is None ==> r.lines@.len() == 0,
{
    let lines: Vec<lyrics::Line> = match &synced {
        Some(s) => lyrics::parse_lrc(s.as_str()),
        None => {
            proof {
                let none = Seq::<int>::empty();
                assert(crate::order::is_stable_order(lyrics::times(entries_of(synced)), none));
            }
            Vec::new()
        },
    };
    Lyrics { lines, plain }
}

/// The lyrics that the library holds of a track; `None` if they have never been
/// looked up. A lookup that found nothing is held too, and is not repeated.
pub fn cached_lyrics(cached: Option<(Option<String>, Option<String>)>) -> (r: Option<Lyrics>)
    ensures
        match cached {
            Some((synced, plain)) => r is Some && shows(r->0, synced, plain) && r->0.plain == plain
                && (synced is None ==> r->0.lines@.len() == 0),
            None => r is None,
        },
{
    match cached {
        Some((synced, plain)) => Some(show_lyrics(synced, plain)),
        None => None,
    }
}

// ── settings and sources ───────────────────────────────────────────────

/// Whether saving settings switches the library: each source has a database of
/// its own, see [`crate::db::source_db_path`]. Without a data directory nothing can
/// be saved.
pub fn settings_change(previous: Source, next: Source, has_data_dir: bool) -> (r: Result<
    bool,
    String,
>)
    ensures
        match r {
            Ok(switch) => has_data_dir && switch == (previous != next),
            Err(e) => !has_data_dir && e@ == "no data directory; settings cannot be saved"@,
        },
{
    if !has_data_dir {
        return Err("no data directory; settings cannot be saved".to_string());
    }
    Ok(previous != next)
}

/// What makes the playback backend match the source.
#[derive(Debug, Clone, Copy, PartialEq, Eq, Structural)]
pub struct BackendPlan {
    /// Stop the native engine, if there is one.
    pub stop_audio: bool,
    /// Take the presence card down, if there is one.
    pub clear_presence: bool,
    /// Open the web player.
    pub open_engine: bool,
    /// Close the web player, which is then no longer ready.
    pub close_engine: bool,
    /// Let the native engine and the server's client go.
    pub drop_native: bool,
    /// Make the server's client anew.
    pub make_client: bool,
    /// Open the native engine.
    pub make_audio: bool,
}

/// Whether a source plays through the web player.
pub open spec fn plays_in_webview(source: Source) -> bool {
    source == Source::Apple || source == Source::Spotify
}

/// What makes the backend match a source, from what is there.
pub open spec fn plan_for(source: Source, has_window: bool, has_audio: bool) -> BackendPlan {
    BackendPlan {
        stop_audio: true,
        clear_presence: true,
        open_engine: plays_in_webview(source) && !has_window,
        close_engine: !plays_in_webview(source) && has_window,
        drop_native: plays_in_webview(source),
        make_client: !plays_in_webview(source),
        make_audio: !plays_in_webview(source) && !has_audio,
    }
}

/// Makes the playback backend match the source. A queue from another source means
/// nothing here: its ids belong to a catalog this backend does not know. Safe to
/// do twice.
pub fn reconcile_backend(
    player: &mut Player,
    now: &mut NowReported,
    source: Source,
    has_window: bool,
    has_audio: bool,
) -> (r: BackendPlan)
    requires
        old(player)@.wf(),
    ensures
        final(player)@.wf(),
        final(player)@ == (Playback {
            status: Status::Idle,
            queue: Seq::empty(),
            index: None,
            position_ms: 0,
            ..old(player)@
        }),
        final(now).track_id is None,
        !final(now).scrobbled,
        r == plan_for(source, has_window, has_audio),
        r.stop_audio && r.clear_presence,
        r.open_engine <==> (source == Source::Apple || source == Source::Spotify) && !has_window,
        r.close_engine <==> (source == Source::Navidrome || source == Source::Local) && has_window,
        r.drop_native <==> source == Source::Apple || source == Source::Spotify,
        r.make_client <==> source == Source::Navidrome || source == Source::Local,
        r.make_audio <==> (source == Source::Navidrome || source == Source::Local) && !has_audio,
{
    player.reset_queue();
    *now = NowReported::default();
    let webview = source == Source::Apple || source == Source::Spotify;
    BackendPlan {
        stop_audio: true,
        clear_presence: true,
        open_engine: webview && !has_window,
        close_engine: !webview && has_window,
        drop_native: webview,
        make_client: !webview,
        make_audio: !webview && !has_audio,
    }
}

/// Once it has been carried out, there is nothing left to open or close: the web
/// player is there exactly for the sources that need it.
pub proof fn lemma_reconciling_settles(source: Source, has_window: bool, has_audio: bool)
    ensures
        ({
            let plan = plan_for(source, has_window, has_audio);
            let window = (has_window || plan.open_engine) && !plan.close_engine;
            let audio = (has_audio || plan.make_audio) && !plan.drop_native;
            let again = plan_for(source, window, audio);
            &&& window == plays_in_webview(source)
            &&& audio == !plays_in_webview(source)
            &&& !again.open_engine && !again.close_engine && !again.make_audio
        }),
{
}

/// What the interface is told about the server.
#[derive(Debug, PartialEq, Eq)]
pub struct NavidromeStatus {
    pub configured: bool,
    pub url: String,
    pub username: String,
    pub insecure: bool,
}

/// What the interface is told about the server. `has_password` says whether
/// either store holds one.
pub fn navidrome_status(settings: &Settings, has_password: bool) -> (r: NavidromeStatus)
    ensures
        r.configured == (has_password && !text::blank(settings.navidrome.url@) && !text::blank(
            settings.navidrome.username@,
        )),
        r.url == settings.navidrome.url,
        r.username == settings.navidrome.username,
        r.insecure == "http://"@.is_prefix_of(text::trimmed(settings.navidrome.url@)),
{
    NavidromeStatus {
        configured: has_password && !text::is_blank(settings.navidrome.url.as_str())
            && !text::is_blank(settings.navidrome.username.as_str()),
        url: settings.navidrome.url.clone(),
        username: settings.navidrome.username.clone(),
        insecure: subsonic::is_insecure(settings.navidrome.url.as_str()),
    }
}

/// What is said when a login does not work.
pub fn connect_failure(e: &subsonic::SubsonicError) -> (r: String)
    ensures
        r@ == (match *e {
            subsonic::SubsonicError::Unauthorized => "wrong username or password"@,
            subsonic::SubsonicError::Http(_) => "server unreachable"@,
            _ => e.text(),
        }),
{
    match e {
        subsonic::SubsonicError::Unauthorized => "wrong username or password".to_string(),
        subsonic::SubsonicError::Http(_) => "server unreachable".to_string(),
        _ => e.message(),
    }
}

/// The settings after a login worked. Only a login that was tried is stored: one
/// that was not would fail later for a reason nobody can see.
pub fn connected_settings(settings: &Settings, client: &subsonic::Client, username: String) -> (r:
    Settings)
    ensures
        r.source == Source::Navidrome,
        r.navidrome.url@ == client.base(),
        r.navidrome.username == username,
        r.same_as(
            Settings { source: Source::Navidrome, navidrome: r.navidrome, ..*settings },
        ),
{
    let mut s = settings.clone();
    s.source = Source::Navidrome;
    s.navidrome = crate::settings::Navidrome { url: client.base_url().to_string(), username };
    s
}

// ── diagnostics ────────────────────────────────────────────────────────

/// What a bug report needs to know. Neither the server's address nor the user's
/// name nor any credential is among it.
#[derive(Debug)]
pub struct Diagnostics {
    pub version: String,
    pub source: Source,
    pub glass: String,
    pub has_audio: bool,
    pub has_navidrome: bool,
    pub engine_window: bool,
    pub has_discord: bool,
    pub database: String,
    pub counts: LibraryCounts,
    pub navidrome_configured: bool,
    pub navidrome_https: bool,
    pub lastfm_key: bool,
    pub discord_id: bool,
    pub serve_art_from_server: bool,
    pub onboarded: bool,
    pub developer: bool,
}

/// The name of a source.
pub open spec fn source_name(s: Source) -> Seq<char> {
    match s {
        Source::Apple => "Apple"@,
        Source::Spotify => "Spotify"@,
        Source::Navidrome => "Navidrome"@,
        Source::Local => "Local"@,
    }
}

fn show_source(s: Source) -> (r: &'static str)
    ensures
        r@ == source_name(s),
{
    match s {
        Source::Apple => "Apple",
        Source::Spotify => "Spotify",
        Source::Navidrome => "Navidrome",
        Source::Local => "Local",
    }
}

/// The name of a status.
pub open spec fn status_name(s: Status) -> Seq<char> {
    match s {
        Status::Idle => "Idle"@,
        Status::Loading => "Loading"@,
        Status::Playing => "Playing"@,
        Status::Paused => "Paused"@,
        Status::Stalled => "Stalled"@,
        Status::Ended => "Ended"@,
    }
}

fn show_status(s: Status) -> (r: &'static str)
    ensures
        r@ == status_name(s),
{
    match s {
        Status::Idle => "Idle",
        Status::Loading => "Loading",
        Status::Playing => "Playing",
        Status::Paused => "Paused",
        Status::Stalled => "Stalled",
        Status::Ended => "Ended",
    }
}

/// The name of a repeat mode.
pub open spec fn repeat_name(r: Repeat) -> Seq<char> {
    match r {
        Repeat::Off => "Off"@,
        Repeat::All => "All"@,
        Repeat::One => "One"@,
    }
}

fn show_repeat(r: Repeat) -> (s: &'static str)
    ensures
        s@ == repeat_name(r),
{
    match r {
        Repeat::Off => "Off",
        Repeat::All => "All",
        Repeat::One => "One",
    }
}

/// A place in the queue, if there is one.
pub open spec fn index_text(i: Option<usize>) -> Seq<char> {
    match i {
        Some(n) => "Some("@ + text::decimal(n as nat) + ")"@,
        None => "None"@,
    }
}

fn show_index(i: Option<usize>) -> (r: String)
    ensures
        r@ == index_text(i),
{
    match i {
        Some(n) => {
            let mut out = "Some(".to_string();
            let shown = text::show(n as u64);
            out.append(shown.as_str());
            out.append(")");
            out
        },
        None => "None".to_string(),
    }
}

/// What a bug report says about the player.
pub open spec fn player_text(p: Playback) -> Seq<char> {
    "player: "@ + status_name(p.status) + "  queue="@ + text::decimal(p.queue.len()) + " index="@
        + index_text(p.index) + " position="@ + text::decimal(p.position_ms as nat) + "ms volume="@
        + text::decimal(p.volume as nat) + " shuffle="@ + text::truth(p.shuffle) + " repeat="@
        + repeat_name(p.repeat)
}

fn show_player(p: &PlayerState) -> (r: String)
    ensures
        r@ == player_text(p@),
{
    let mut out = "player: ".to_string();
    out.append(show_status(p.status));
    out.append("  queue=");
    let n = text::show(p.queue.len() as u64);
    out.append(n.as_str());
    out.append(" index=");
    let n = show_index(p.index);
    out.append(n.as_str());
    out.append(" position=");
    let n = text::show(p.position_ms);
    out.append(n.as_str());
    out.append("ms volume=");
    let n = text::show(p.volume as u64);
    out.append(n.as_str());
    out.append(" shuffle=");
    out.append(text::show_bool(p.shuffle));
    out.append(" repeat=");
    out.append(show_repeat(p.repeat));
    out
}

/// What a bug report says about the library.
pub open spec fn library_text(c: LibraryCounts) -> Seq<char> {
    "library: "@ + text::decimal(c.songs as nat) + " songs, "@ + text::decimal(c.albums as nat)
        + " albums, "@ + text::decimal(c.playlists as nat) + " playlists, "@ + text::decimal(
        c.artists as nat,
    ) + " artists"@
}

fn show_library(c: LibraryCounts) -> (r: String)
    ensures
        r@ == library_text(c),
{
    let mut out = "library: ".to_string();
    let n = text::show(c.songs as u64);
    out.append(n.as_str());
    out.append(" songs, ");
    let n = text::show(c.albums as u64);
    out.append(n.as_str());
    out.append(" albums, ");
    let n = text::show(c.playlists as u64);
    out.append(n.as_str());
    out.append(" playlists, ");
    let n = text::show(c.artists as u64);
    out.append(n.as_str());
    out.append(" artists");
    out
}

/// What a bug report says about the backends.
pub open spec fn backend_text(d: Diagnostics) -> Seq<char> {
    "backend: audio="@ + text::truth(d.has_audio) + " navidrome="@ + text::truth(d.has_navidrome)
        + " engine_webview="@ + text::truth(d.engine_window) + " discord="@ + text::truth(
        d.has_discord,
    )
}

fn show_backend(d: &Diagnostics) -> (r: String)
    ensures
        r@ == backend_text(*d),
{
    let mut out = "backend: audio=".to_string();
    out.append(text::show_bool(d.has_audio));
    out.append(" navidrome=");
    out.append(text::show_bool(d.has_navidrome));
    out.append(" engine_webview=");
    out.append(text::show_bool(d.engine_window));
    out.append(" discord=");
    out.append(text::show_bool(d.has_discord));
    out
}

/// What a bug report says about the integrations.
pub open spec fn keys_text(d: Diagnostics) -> Seq<char> {
    "navidrome: configured="@ + text::truth(d.navidrome_configured) + " https="@ + text::truth(
        d.navidrome_https,
    ) + "\nlastfm_key="@ + text::truth(d.lastfm_key) + " discord_id="@ + text::truth(d.discord_id)
        + " serve_art_from_server="@ + text::truth(d.serve_art_from_server) + "\nonboarded: "@
        + text::truth(d.onboarded) + "  developer: "@ + text::truth(d.developer)
}

fn show_keys(d: &Diagnostics) -> (r: String)
    ensures
        r@ == keys_text(*d),
{
    let mut out = "navidrome: configured=".to_string();
    out.append(text::show_bool(d.navidrome_configured));
    out.append(" https=");
    out.append(text::show_bool(d.navidrome_https));
    out.append("\nlastfm_key=");
    out.append(text::show_bool(d.lastfm_key));
    out.append(" discord_id=");
    out.append(text::show_bool(d.discord_id));
    out.append(" serve_art_from_server=");
    out.append(text::show_bool(d.serve_art_from_server));
    out.append("\nonboarded: ");
    out.append(text::show_bool(d.onboarded));
    out.append("  developer: ");
    out.append(text::show_bool(d.developer));
    out
}

/// What a report shows, value by value.
pub proof fn lemma_diagnostics(d: Diagnostics, p: Playback, c: LibraryCounts, n: usize)
    ensures
        source_name(Source::Apple) == "Apple"@,
        source_name(Source::Spotify) == "Spotify"@,
        source_name(Source::Navidrome) == "Navidrome"@,
        source_name(Source::Local) == "Local"@,
        status_name(Status::Idle) == "Idle"@,
        status_name(Status::Loading) == "Loading"@,
        status_name(Status::Playing) == "Playing"@,
        status_name(Status::Paused) == "Paused"@,
        status_name(Status::Stalled) == "Stalled"@,
        status_name(Status::Ended) == "Ended"@,
        repeat_name(Repeat::Off) == "Off"@,
        repeat_name(Repeat::All) == "All"@,
        repeat_name(Repeat::One) == "One"@,
        index_text(None) == "None"@,
        index_text(Some(n)) == "Some("@ + text::decimal(n as nat) + ")"@,
        text::truth(true) == "true"@,
        text::truth(false) == "false"@,
        backend_text(d) == "backend: audio="@ + text::truth(d.has_audio) + " navidrome="@
            + text::truth(d.has_navidrome) + " engine_webview="@ + text::truth(d.engine_window)
            + " discord="@ + text::truth(d.has_discord),
        library_text(c) == "library: "@ + text::decimal(c.songs as nat) + " songs, "@
            + text::decimal(c.albums as nat) + " albums, "@ + text::decimal(c.playlists as nat)
            + " playlists, "@ + text::decimal(c.artists as nat) + " artists"@,
        player_text(p) == "player: "@ + status_name(p.status) + "  queue="@ + text::decimal(
            p.queue.len(),
        ) + " index="@ + index_text(p.index) + " position="@ + text::decimal(p.position_ms as nat)
            + "ms volume="@ + text::decimal(p.volume as nat) + " shuffle="@ + text::truth(p.shuffle)
            + " repeat="@ + repeat_name(p.repeat),
        keys_text(d) == "navidrome: configured="@ + text::truth(d.navidrome_configured) + " https="@
            + text::truth(d.navidrome_https) + "\nlastfm_key="@ + text::truth(d.lastfm_key)
            + " discord_id="@ + text::truth(d.discord_id) + " serve_art_from_server="@
            + text::truth(d.serve_art_from_server) + "\nonboarded: "@ + text::truth(d.onboarded)
            + "  developer: "@ + text::truth(d.developer),
{
}

/// Everything worth knowing in a bug report, as text to paste.
pub fn dev_diagnostics(d: &Diagnostics, player: &PlayerState) -> (r: String)
    ensures
        r@ == "capsule "@ + d.version@ + "\nsource: "@ + source_name(d.source) + "   glass: "@
            + d.glass@ + "\n"@ + backend_text(*d) + "\ndatabase: "@ + d.database@ + "\n"@
            + library_text(d.counts) + "\n"@ + player_text(player@) + "\n"@ + keys_text(*d),
{
    let mut out = "capsule ".to_string();
    out.append(d.version.as_str());
    out.append("\nsource: ");
    out.append(show_source(d.source));
    out.append("   glass: ");
    out.append(d.glass.as_str());
    out.append("\n");
    let part = show_backend(d);
    out.append(part.as_str());
    out.append("\ndatabase: ");
    out.append(d.database.as_str());
    out.append("\n");
    let part = show_library(d.counts);
    out.append(part.as_str());
    out.append("\n");
    let part = show_player(player);
    out.append(part.as_str());
    out.append("\n");
    let part = show_keys(d);
    out.append(part.as_str());
    out
}

/// How a bug report names the database: by its file name alone.
pub fn database_label(path: Option<String>) -> (r: String)
    ensures
        match path {
            None => r@ == "unknown"@,
            Some(p) => {
                &&& outside::is_simple_path(p@) ==> r@ == (match outside::slash_name(p@) {
                    Some(n) => n,
                    None => Seq::empty(),
                })
                &&& outside::has_name(p@) ==> outside::is_name_in(p@, r@) || (outside::is_doubled(
                    p@,
                ) && r@.len() == 0)
            },
        },
{
    match path {
        None => "unknown".to_string(),
        Some(p) => file_label(outside::path_file_name(p.as_str())),
    }
}

/// A file name, or nothing.
pub fn file_label(name: Option<String>) -> (r: String)
    ensures
        r@ == (match name {
            Some(n) => n@,
            None => Seq::empty(),
        }),
{
    match name {
        Some(n) => n,
        None => String::new(),
    }
}

/// What is put to the web player to load recent tracks.
pub const LOAD_RECENT: &'static str = "window.__saint && __saint.loadRecent()";

/// Where playing starts: on the first track with the id that was clicked; where
/// that one is not queued, at the place that was clicked, or on the last track if
/// the queue is shorter than that.
pub proof fn lemma_where_playing_starts(
    source: Source,
    songs: Seq<SongRow>,
    queue: Seq<Track>,
    start: usize,
    at: int,
)
    requires
        starts_at(source, songs, queue, start, at),
    ensures
        ({
            let catalog = source == Source::Apple || source == Source::Spotify;
            let known = start < songs.len() && (!catalog || songs[start as int].catalog_id is Some);
            let id = if catalog {
                songs[start as int].catalog_id->0@
            } else {
                songs[start as int].id@
            };
            let waits = known && exists|i: int| 0 <= i < queue.len() && (#[trigger] queue[i]).id@ == id;
            &&& waits ==> 0 <= at < queue.len() && queue[at].id@ == id
            &&& waits ==> forall|j: int| 0 <= j < at ==> (#[trigger] queue[j]).id@ != id
            &&& !waits && start < queue.len() ==> at == start
            &&& !waits && start >= queue.len() ==> at == queue.len() - 1
        }),
{
    let catalog = source == Source::Apple || source == Source::Spotify;
    let known = start < songs.len() && (!catalog || songs[start as int].catalog_id is Some);
    let id = if catalog {
        songs[start as int].catalog_id->0@
    } else {
        songs[start as int].id@
    };
    assert(clicked_id(source, songs, start) == (if known {
        Some(id)
    } else {
        None
    }));
    if known {
        if exists|i: int| 0 <= i < queue.len() && (#[trigger] queue[i]).id@ == id {
            let i = choose|i: int| 0 <= i < queue.len() && (#[trigger] queue[i]).id@ == id;
            player::lemma_queued(queue, id, i);
        } else if player::queued(queue, id) {
            let i = choose|i: int| player::first_at(queue, id, i);
            assert(queue[i].id@ == id);
        }
    }
}

} // verus!
