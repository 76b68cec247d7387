//! Mirroring a source into the local library.
//!
//! Fetching and writing happen elsewhere. What stands here is what a run does
//! next: which stage follows, which batches are still wanted, what is reported,
//! and when a run gives up.

use vstd::prelude::*;
use crate::auth::{NavidromeCredentials, Tokens};
use crate::config::NavidromeEnv;
use crate::db::{AlbumUpsert, ArtistUpsert, SongUpsert};
use crate::local;
use crate::settings::{Settings, Source};
use crate::source;
use crate::source::{SourceClient, SourceError};
use crate::text;

verus! {

/// What the interface is told while a run is under way.
#[derive(Debug, Clone, Copy, PartialEq, Eq)]
pub struct Progress {
    pub stage: &'static str,
    pub songs: u32,
    pub albums: u32,
    pub playlists: u32,
    pub done: bool,
}

/// What the interface is told when a run fails.
#[derive(Debug, PartialEq, Eq)]
pub struct SyncFailed {
    pub reason: String,
    pub needs_auth: bool,
}

/// Lets one run in at a time.
pub struct SyncGuard {
    busy: bool,
}

impl Default for SyncGuard {
    fn default() -> (r: Self)
        ensures
            !r.taken(),
    {
        SyncGuard { busy: false }
    }
}

impl SyncGuard {
    /// Whether a run is under way.
    pub closed spec fn taken(&self) -> bool {
        self.busy
    }

    /// Lets a run in, unless one is under way already.
    pub fn try_begin(&mut self) -> (r: bool)
        ensures
            r == !old(self).taken(),
            final(self).taken(),
    {
        let free = !self.busy;
        self.busy = true;
        free
    }

    /// The run that was let in is over, however it ended.
    pub fn end(&mut self)
        ensures
            !final(self).taken(),
    {
        self.busy = false;
    }
}

// ── starting ───────────────────────────────────────────────────────────

/// How a run begins.
pub enum Start {
    /// Read these folders.
    ScanLocal { folders: Vec<String> },
    /// Ask this client.
    Fetch { client: SourceClient },
    /// Nothing can be asked; say so.
    Fail(SyncFailed),
}

/// The failure that a connection error is reported as.
pub open spec fn is_report_of(f: SyncFailed, e: source::ConnectError) -> bool {
    f.reason@ == e.text() && f.needs_auth == (e is NotSignedIn)
}

/// Decides how a run begins.
pub fn start(
    settings: &Settings,
    tokens: Option<Tokens>,
    env: Option<NavidromeEnv>,
    stored: Option<NavidromeCredentials>,
    pid: u32,
) -> (r: Start)
    ensures
        match settings.source {
            Source::Local => r is ScanLocal && r->folders@ == settings.local.folders@,
            Source::Spotify => r is Fail && r->Fail_0.reason@ == "source not implemented yet: "@
                + "spotify"@ && !r->Fail_0.needs_auth,
            Source::Apple => if tokens is Some && tokens->0.complete() {
                r is Fetch && r->client is Apple && r->client->Apple_0.sends() == tokens->0
            } else {
                r is Fail && is_report_of(r->Fail_0, source::ConnectError::NotSignedIn)
            },
            Source::Navidrome => {
                let url = if env is Some {
                    env->0.url@
                } else {
                    settings.navidrome.url@
                };
                let username = if env is Some {
                    env->0.username@
                } else {
                    settings.navidrome.username@
                };
                let password = if env is Some {
                    Some(env->0.password@)
                } else if stored is Some {
                    Some(stored->0.password@)
                } else {
                    None
                };
                if text::blank(url) || text::blank(username) {
                    r is Fail && is_report_of(r->Fail_0, source::ConnectError::NotConfigured)
                } else if password is None || password->0.len() == 0 {
                    r is Fail && is_report_of(r->Fail_0, source::ConnectError::NotSignedIn)
                } else {
                    &&& r is Fetch
                    &&& r->client is Navidrome
                    &&& r->client->Navidrome_0.base() == crate::subsonic::base_url_of(url)
                    &&& r->client->Navidrome_0.user() == username
                    &&& r->client->Navidrome_0.password() == password->0
                    &&& r->client->Navidrome_0.process() == pid
                }
            },
        },
{
    let (settings, password) = source::resolve(settings, env, stored);
    if settings.source == Source::Local {
        return Start::ScanLocal { folders: settings.local.folders };
    }
    match source::connect(&settings, tokens, password, pid) {
        Ok(client) => Start::Fetch { client },
        Err(e) => Start::Fail(SyncFailed { reason: e.message(), needs_auth: e.needs_auth() }),
    }
}

// ── fetching ───────────────────────────────────────────────────────────

/// Where a run has got to.
#[derive(Debug, Clone, Copy, PartialEq, Eq, Structural)]
pub enum Stage {
    Songs,
    Albums,
    Playlists,
    PlaylistTracks,
    Artists,
    Finishing,
    Over,
}

impl Stage {
    /// How far along a stage is.
    pub open spec fn rank(self) -> int {
        match self {
            Stage::Songs => 0,
            Stage::Albums => 1,
            Stage::Playlists => 2,
            Stage::PlaylistTracks => 3,
            Stage::Artists => 4,
            Stage::Finishing => 5,
            Stage::Over => 6,
        }
    }

    /// The stage after this one. Only Navidrome lists its playlists' tracks on
    /// their own.
    pub open spec fn after(self, navidrome: bool) -> Stage {
        match self {
            Stage::Songs => Stage::Albums,
            Stage::Albums => Stage::Playlists,
            Stage::Playlists => if navidrome {
                Stage::PlaylistTracks
            } else {
                Stage::Artists
            },
            Stage::PlaylistTracks => Stage::Artists,
            Stage::Artists => Stage::Finishing,
            _ => Stage::Over,
        }
    }

    /// The name a stage is reported under.
    pub open spec fn label(self) -> Seq<char> {
        match self {
            Stage::Songs => "songs"@,
            Stage::Albums => "albums"@,
            Stage::Playlists => "playlists"@,
            _ => "done"@,
        }
    }
}

/// A run under way.
pub struct SyncRun {
    stage: Stage,
    navidrome: bool,
    generation: u64,
    songs: u32,
    albums: u32,
    playlists: u32,
}

/// What a [`SyncRun`] holds.
pub struct RunState {
    pub stage: Stage,
    pub navidrome: bool,
    pub generation: u64,
    pub songs: u32,
    pub albums: u32,
    pub playlists: u32,
}

impl View for SyncRun {
    type V = RunState;

    closed spec fn view(&self) -> RunState {
        RunState {
            stage: self.stage,
            navidrome: self.navidrome,
            generation: self.generation,
            songs: self.songs,
            albums: self.albums,
            playlists: self.playlists,
        }
    }
}

impl RunState {
    /// What would be reported now.
    pub open spec fn is_shown_by(self, p: Progress, label: Seq<char>, done: bool) -> bool {
        &&& p.stage@ == label
        &&& p.songs == self.songs
        &&& p.albums == self.albums
        &&& p.playlists == self.playlists
        &&& p.done == done
    }

    /// The counters after `n` more rows of this stage were written. Counters
    /// wrap, as the interface's do.
    pub open spec fn counting(self, n: usize) -> RunState {
        let more = n as u32;
        match self.stage {
            Stage::Songs => RunState { songs: wrapped(self.songs, more), ..self },
            Stage::Albums => RunState { albums: wrapped(self.albums, more), ..self },
            Stage::Playlists => RunState { playlists: wrapped(self.playlists, more), ..self },
            _ => self,
        }
    }
}

/// A counter after it went up, wrapping round at its end.
pub open spec fn wrapped(a: u32, b: u32) -> u32 {
    if a + b > u32::MAX {
        (a + b - u32::MAX - 1) as u32
    } else {
        (a + b) as u32
    }
}

/// What follows the end of a stage.
#[derive(Debug, PartialEq, Eq)]
pub enum StageStep {
    /// Go on with this stage.
    Next(Stage),
    /// The run is over; say why.
    Failed(SyncFailed),
}

impl SyncRun {
    /// Begins fetching. `generation` numbers the database that rows go into;
    /// switching databases changes it.
    pub fn new(navidrome: bool, generation: u64) -> (r: (Self, Progress))
        ensures
            r.0@ == (RunState {
                stage: Stage::Songs,
                navidrome,
                generation,
                songs: 0,
                albums: 0,
                playlists: 0,
            }),
            r.0@.is_shown_by(r.1, "songs"@, false),
    {
        let run = SyncRun {
            stage: Stage::Songs,
            navidrome,
            generation,
            songs: 0,
            albums: 0,
            playlists: 0,
        };
        (run, Progress { stage: "songs", songs: 0, albums: 0, playlists: 0, done: false })
    }

    /// The stage the run is at.
    pub fn stage(&self) -> (r: Stage)
        ensures
            r == self@.stage,
    {
        self.stage
    }

    fn shown(&self, stage: &'static str, done: bool) -> (r: Progress)
        ensures
            self@.is_shown_by(r, stage@, done),
    {
        Progress {
            stage,
            songs: self.songs,
            albums: self.albums,
            playlists: self.playlists,
            done,
        }
    }

    /// Whether a batch of `rows` rows is to be written: not if it is empty, and
    /// not once the library has been switched to another database.
    pub fn wants(&self, rows: usize, generation: u64) -> (r: bool)
        ensures
            r == (rows > 0 && generation == self@.generation),
    {
        rows > 0 && generation == self.generation
    }

    /// A batch was written, `written` rows of it, or could not be. What to
    /// report; the artist stage reports nothing.
    pub fn on_written(&mut self, written: Option<usize>) -> (r: Option<Progress>)
        ensures
            final(self)@ == (match written {
                Some(n) => old(self)@.counting(n),
                None => old(self)@,
            }),
            match old(self)@.stage {
                Stage::Songs | Stage::Albums | Stage::Playlists => r is Some && final(self)@.is_shown_by(r->0, old(self)@.stage.label(), false),
                _ => r is None,
            },
    {
        if let Some(n) = written {
            let more: u32 =
                #[verifier::truncate]
                (n as u32);
            match self.stage {
                Stage::Songs => {
                    self.songs = self.songs.wrapping_add(more);
                },
                Stage::Albums => {
                    self.albums = self.albums.wrapping_add(more);
                },
                Stage::Playlists => {
                    self.playlists = self.playlists.wrapping_add(more);
                },
                _ => {},
            }
        }
        match self.stage {
            Stage::Songs => Some(self.shown("songs", false)),
            Stage::Albums => Some(self.shown("albums", false)),
            Stage::Playlists => Some(self.shown("playlists", false)),
            _ => None,
        }
    }

    /// A stage ended, well or not. Songs, albums and playlists end the run when
    /// they fail; without artists the library is still whole.
    pub fn on_stage_end(&mut self, error: Option<SourceError>) -> (r: StageStep)
        ensures
            ({
                let was = old(self)@;
                let fatal = error is Some && (was.stage == Stage::Songs || was.stage
                    == Stage::Albums || was.stage == Stage::Playlists);
                if fatal {
                    &&& final(self)@ == (RunState { stage: Stage::Over, ..was })
                    &&& r is Failed
                    &&& r->Failed_0.reason@ == error->0.text()
                    &&& r->Failed_0.needs_auth == error->0.is_unauthorized()
                } else {
                    &&& final(self)@ == (RunState { stage: was.stage.after(was.navidrome), ..was })
                    &&& r == StageStep::Next(was.stage.after(was.navidrome))
                }
            }),
    {
        if let Some(e) = error {
            match self.stage {
                Stage::Songs | Stage::Albums | Stage::Playlists => {
                    self.stage = Stage::Over;
                    return StageStep::Failed(
                        SyncFailed { reason: e.message(), needs_auth: e.needs_auth() },
                    );
                },
                _ => {},
            }
        }
        self.stage = match self.stage {
            Stage::Songs => Stage::Albums,
            Stage::Albums => Stage::Playlists,
            Stage::Playlists => if self.navidrome {
                Stage::PlaylistTracks
            } else {
                Stage::Artists
            },
            Stage::PlaylistTracks => Stage::Artists,
            Stage::Artists => Stage::Finishing,
            _ => Stage::Over,
        };
        StageStep::Next(self.stage)
    }

    /// Whether the next playlist's tracks are still to be fetched. If the
    /// library has been switched meanwhile, the run is over.
    pub fn wants_playlist(&mut self, generation: u64) -> (r: bool)
        ensures
            r == (generation == old(self)@.generation),
            final(self)@ == (if r {
                old(self)@
            } else {
                RunState { stage: Stage::Over, ..old(self)@ }
            }),
    {
        if generation == self.generation {
            true
        } else {
            self.stage = Stage::Over;
            false
        }
    }

    /// The end of a run: what to report if it is complete. If the library has
    /// been switched meanwhile it is abandoned without being marked complete.
    pub fn finish(&mut self, generation: u64) -> (r: Option<Progress>)
        ensures
            final(self)@ == (RunState { stage: Stage::Over, ..old(self)@ }),
            match r {
                Some(p) => old(self)@.stage == Stage::Finishing && generation == old(self)@.generation && old(self)@.is_shown_by(p, "done"@, true),
                None => old(self)@.stage != Stage::Finishing || generation != old(self)@.generation,
            },
    {
        let complete = self.stage == Stage::Finishing && generation == self.generation;
        self.stage = Stage::Over;
        if complete {
            Some(self.shown("done", true))
        } else {
            None
        }
    }
}

/// Stages only ever go forward, and every run comes to its end: one that failed
/// or was abandoned stays over, so it is never marked complete.
pub proof fn lemma_stages_go_forward(s: Stage, navidrome: bool)
    ensures
        s != Stage::Over ==> s.after(navidrome).rank() > s.rank(),
        s == Stage::Over ==> s.after(navidrome) == Stage::Over,
{
}

// ── local files ────────────────────────────────────────────────────────

/// The rows of a scan, ready to be written.
pub struct ScanRows {
    pub songs: Vec<SongUpsert>,
    pub albums: Vec<AlbumUpsert>,
    pub artists: Vec<ArtistUpsert>,
}

/// A scan of local folders under way.
pub struct LocalScan {
    generation: u64,
}

impl LocalScan {
    /// The database the scan writes into.
    pub closed spec fn target(&self) -> u64 {
        self.generation
    }

    /// Begins a scan, if any folder has been chosen.
    pub fn begin(folders: &Vec<String>, generation: u64) -> (r: Result<(Self, Progress), SyncFailed>)
        ensures
            match r {
                Ok((scan, p)) => {
                    &&& folders@.len() > 0
                    &&& scan.target() == generation
                    &&& p.stage@ == "songs"@ && p.songs == 0 && p.albums == 0 && p.playlists == 0
                        && !p.done
                },
                Err(e) => folders@.len() == 0 && e.reason@ == "no music folders chosen yet"@
                    && !e.needs_auth,
            },
    {
        if folders.len() == 0 {
            return Err(
                SyncFailed { reason: "no music folders chosen yet".to_string(), needs_auth: false },
            );
        }
        Ok(
            (
                LocalScan { generation },
                Progress { stage: "songs", songs: 0, albums: 0, playlists: 0, done: false },
            ),
        )
    }

    /// The scan itself broke down.
    pub fn broken(&self) -> (r: SyncFailed)
        ensures
            r.reason@ == "could not read your music folders"@,
            !r.needs_auth,
    {
        SyncFailed { reason: "could not read your music folders".to_string(), needs_auth: false }
    }

    /// The files have been read. The rows to write; `None` if the library has
    /// been switched meanwhile, and the scan is abandoned.
    pub fn on_scanned(&self, files: Vec<local::ScannedFile>, generation: u64) -> (r: Option<
        ScanRows,
    >)
        requires
            files@.len() <= u32::MAX,
        ensures
            match r {
                None => generation != self.target(),
                Some(rows) => {
                    let kept = local::readable(files@);
                    let tags = local::tag_map(kept);
                    &&& generation == self.target()
                    &&& rows.songs@.len() == kept.len()
                    &&& forall|k: int|
                        0 <= k < rows.songs@.len() ==> local::is_song_of(
                            #[trigger] rows.songs@[k],
                            kept[k].path@,
                            kept[k].tags->0,
                        )
                    &&& forall|k: int|
                        0 <= k < rows.songs@.len() ==> (#[trigger] rows.songs@[k]).id@
                            == kept[k].path@ && rows.songs@[k].name == kept[k].tags->0.title
                            && rows.songs@[k].artist_name == kept[k].tags->0.artist
                            && rows.songs@[k].album_name == kept[k].tags->0.album
                    &&& forall|k: int|
                        0 <= k < rows.albums@.len() ==> exists|j: int|
                            0 <= j < kept.len() && (#[trigger] rows.albums@[k]).name == (
                            #[trigger] kept[j]).tags->0.album
                    &&& forall|k: int|
                        0 <= k < rows.artists@.len() ==> exists|j: int|
                            0 <= j < kept.len() && (#[trigger] rows.artists@[k]).name == (
                            #[trigger] kept[j]).tags->0.artist
                    &&& forall|k: int|
                        0 <= k < rows.albums@.len() ==> local::is_album_of(
                            rows.songs@,
                            tags,
                            #[trigger] rows.albums@[k],
                        )
                    &&& forall|a: int, b: int|
                        0 <= a < b < rows.albums@.len() ==> (#[trigger] rows.albums@[a]).id@ != (
                        #[trigger] rows.albums@[b]).id@
                    &&& local::albums_complete(rows.songs@, rows.albums@)
                    &&& forall|k: int|
                        0 <= k < rows.artists@.len() ==> local::is_artist_of(
                            rows.songs@,
                            #[trigger] rows.artists@[k],
                        )
                    &&& forall|a: int, b: int|
                        0 <= a < b < rows.artists@.len() ==> (#[trigger] rows.artists@[a]).id@ != (
                        #[trigger] rows.artists@[b]).id@
                    &&& local::artists_complete(rows.songs@, rows.artists@)
                },
            },
    {
        proof {
            files@.lemma_filter_len(|f: local::ScannedFile| f.tags is Some);
        }
        let (songs, tags) = local::collect_scan(files);
        let albums = local::albums_from(&songs, &tags);
        let artists = local::artists_from(&songs);
        if generation != self.generation {
            return None;
        }
        proof {
            let kept = local::readable(files@);
            assert forall|k: int| 0 <= k < albums@.len() implies exists|j: int|
                0 <= j < kept.len() && (#[trigger] albums@[k]).name == (
                #[trigger] kept[j]).tags->0.album by {
                local::lemma_album_row_fields(songs@, tags@, albums@[k]);
                let lead = choose|lead: int| #[trigger]
                    local::leads(songs@, lead, albums@[k].id@) && albums@[k].name
                        == songs@[lead].album_name;
                assert(songs@[lead].album_name == kept[lead].tags->0.album);
            }
            assert forall|k: int| 0 <= k < artists@.len() implies exists|j: int|
                0 <= j < kept.len() && (#[trigger] artists@[k]).name == (
                #[trigger] kept[j]).tags->0.artist by {
                local::lemma_artist_row_fields(songs@, artists@[k]);
                let lead = choose|lead: int|
                    0 <= lead < songs@.len() && artists@[k].name == (
                    #[trigger] songs@[lead]).artist_name;
                assert(songs@[lead].artist_name == kept[lead].tags->0.artist);
            }
        }
        Some(ScanRows { songs, albums, artists })
    }

    /// What is reported once the rows are in.
    pub fn done(&self, rows: &ScanRows) -> (r: Progress)
        ensures
            r.stage@ == "songs"@,
            r.songs == rows.songs@.len() as u32,
            r.albums == rows.albums@.len() as u32,
            r.playlists == 0,
            r.done,
    {
        Progress {
            stage: "songs",
            songs:
                #[verifier::truncate]
                (rows.songs.len() as u32),
            albums:
                #[verifier::truncate]
                (rows.albums.len() as u32),
            playlists: 0,
            done: true,
        }
    }
}

/// What a stage's rows add to: the counter of that stage alone.
pub proof fn lemma_counting(run: RunState, n: usize, p: Progress, label: Seq<char>, done: bool)
    ensures
        run.stage == Stage::Songs && run.songs + n <= u32::MAX ==> run.counting(n).songs == run.songs
            + n && run.counting(n).albums == run.albums && run.counting(n).playlists
            == run.playlists,
        run.stage == Stage::Albums && run.albums + n <= u32::MAX ==> run.counting(n).albums
            == run.albums + n && run.counting(n).songs == run.songs && run.counting(n).playlists
            == run.playlists,
        run.stage == Stage::Playlists && run.playlists + n <= u32::MAX ==> run.counting(n).playlists
            == run.playlists + n && run.counting(n).songs == run.songs && run.counting(n).albums
            == run.albums,
        run.stage != Stage::Songs && run.stage != Stage::Albums && run.stage != Stage::Playlists
            ==> run.counting(n) == run,
        run.counting(n).stage == run.stage,
        run.counting(n).generation == run.generation,
        run.is_shown_by(p, label, done) ==> p.songs == run.songs && p.albums == run.albums
            && p.playlists == run.playlists && p.done == done && p.stage@ == label,
        Stage::Songs.label() == "songs"@,
        Stage::Albums.label() == "albums"@,
        Stage::Playlists.label() == "playlists"@,
{
}

/// The order of a run.
pub proof fn lemma_stages_in_order(navidrome: bool)
    ensures
        Stage::Songs.after(navidrome) == Stage::Albums,
        Stage::Albums.after(navidrome) == Stage::Playlists,
        Stage::Playlists.after(true) == Stage::PlaylistTracks,
        Stage::Playlists.after(false) == Stage::Artists,
        Stage::PlaylistTracks.after(navidrome) == Stage::Artists,
        Stage::Artists.after(navidrome) == Stage::Finishing,
        Stage::Finishing.after(navidrome) == Stage::Over,
{
}

/// A run that cannot start says why, and whether signing in would help.
pub proof fn lemma_reports(f: SyncFailed, e: source::ConnectError)
    requires
        is_report_of(f, e),
    ensures
        f.reason@ == e.text(),
        e is NotSignedIn ==> f.needs_auth,
        e is NotConfigured ==> !f.needs_auth,
{
}

/// Counts start again at zero behind the largest one.
pub proof fn lemma_counts_wrap(a: u32, b: u32)
    ensures
        wrapped(a, b) as int == (a as int + b as int) % 0x1_0000_0000,
{
}

} // verus!
