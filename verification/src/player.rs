//! The single source of truth for playback.
//!
//! Pure data in, data out: intents come in from the interface, engine events
//! come in from the playback backend, and the machine emits
//! [`EngineCommand`]s describing what the backend should be told to do. It
//! never talks to a backend itself.

use vstd::prelude::*;
use crate::text::same;

verus! {

/// One queued track.
#[derive(Debug, PartialEq, Eq)]
pub struct Track {
    pub id: String,
    pub title: String,
    pub artist: String,
    pub album: String,
    /// Zero while the length is not known.
    pub duration_ms: u64,
}

impl Clone for Track {
    fn clone(&self) -> (r: Self)
        ensures
            r == *self,
    {
        Track {
            id: self.id.clone(),
            title: self.title.clone(),
            artist: self.artist.clone(),
            album: self.album.clone(),
            duration_ms: self.duration_ms,
        }
    }
}

/// What the transport shows.
#[derive(Debug, Clone, Copy, PartialEq, Eq, Structural)]
pub enum Status {
    Idle,
    Loading,
    Playing,
    Paused,
    Stalled,
    Ended,
}

/// What happens when the queue, or a track, runs out.
#[derive(Debug, Clone, Copy, PartialEq, Eq, Structural)]
pub enum Repeat {
    Off,
    All,
    One,
}

impl Default for Repeat {
    fn default() -> (r: Self)
        ensures
            r == Repeat::Off,
    {
        Repeat::Off
    }
}

/// An instruction for the playback backend.
#[derive(Debug, PartialEq, Eq)]
pub enum EngineCommand {
    SetQueue { ids: Vec<String>, start_index: usize },
    Play,
    Pause,
    Seek { ms: u64 },
    SetVolume { percent: u8 },
    SkipNext,
    SkipPrevious,
    SetShuffle { on: bool },
    SetRepeat { mode: u8 },
    Prewarm { id: String },
}

/// The ids of a queue, in order.
pub open spec fn track_ids(queue: Seq<Track>) -> Seq<String> {
    queue.map_values(|t: Track| t.id)
}

/// Whether `cmds` hands the whole queue to the backend, starting at `start`.
pub open spec fn loads_queue(cmds: Seq<EngineCommand>, queue: Seq<Track>, start: int) -> bool {
    &&& cmds.len() == 2
    &&& cmds[0] matches EngineCommand::SetQueue { ids, start_index }
    &&& ids@ == track_ids(queue)
    &&& start_index == start
    &&& cmds[1] == EngineCommand::Play
}

/// The ids of a queue, in order.
fn collect_ids(queue: &Vec<Track>) -> (ids: Vec<String>)
    ensures
        ids@ == track_ids(queue@),
{
    let mut ids: Vec<String> = Vec::new();
    let mut i: usize = 0;
    while i < queue.len()
        invariant
            i <= queue@.len(),
            ids@ == track_ids(queue@.take(i as int)),
        decreases queue@.len() - i,
    {
        ids.push(queue[i].id.clone());
        assert(track_ids(queue@.take(i + 1)) =~= track_ids(queue@.take(i as int)).push(
            queue@[i as int].id,
        ));
        i += 1;
    }
    assert(queue@.take(queue@.len() as int) =~= queue@);
    ids
}

impl Repeat {
    /// The number the backend knows this mode by.
    pub open spec fn mode(self) -> u8 {
        match self {
            Repeat::Off => 0u8,
            Repeat::One => 1u8,
            Repeat::All => 2u8,
        }
    }

    /// The mode the repeat button goes to.
    pub open spec fn next(self) -> Repeat {
        match self {
            Repeat::Off => Repeat::All,
            Repeat::All => Repeat::One,
            Repeat::One => Repeat::Off,
        }
    }

    fn musickit_mode(self) -> (r: u8)
        ensures
            r == self.mode(),
    {
        match self {
            Repeat::Off => 0,
            Repeat::One => 1,
            Repeat::All => 2,
        }
    }

    fn cycle(self) -> (r: Self)
        ensures
            r == self.next(),
    {
        match self {
            Repeat::Off => Repeat::All,
            Repeat::All => Repeat::One,
            Repeat::One => Repeat::Off,
        }
    }
}

/// Pressing the repeat button three times comes back to where it started, and
/// no press leaves the mode as it was.
pub proof fn lemma_repeat_cycles(r: Repeat)
    ensures
        r.next().next().next() == r,
        r.next() != r,
        r.next().next() != r,
{
}

/// Everything the interface needs to draw the transport.
#[derive(Debug, PartialEq, Eq)]
pub struct PlayerState {
    pub status: Status,
    pub queue: Vec<Track>,
    pub index: Option<usize>,
    pub position_ms: u64,
    pub volume: u8,
    pub shuffle: bool,
    pub repeat: Repeat,
}

/// The mathematical content of a [`PlayerState`].
#[verifier::ext_equal]
pub struct Playback {
    pub status: Status,
    pub queue: Seq<Track>,
    pub index: Option<usize>,
    pub position_ms: u64,
    pub volume: u8,
    pub shuffle: bool,
    pub repeat: Repeat,
}

impl Playback {
    /// The index, where there is one, points into the queue, or at the place of
    /// the first track while the queue is empty; a queue that holds something has
    /// one. The volume is a percentage.
    pub open spec fn wf(self) -> bool {
        &&& self.index matches Some(i) ==> i < self.queue.len() || i == 0
        &&& self.queue.len() > 0 ==> self.index is Some
        &&& self.volume <= 100
    }

    /// What nothing has happened to yet.
    pub open spec fn fresh() -> Playback {
        Playback {
            status: Status::Idle,
            queue: Seq::empty(),
            index: None,
            position_ms: 0,
            volume: 100,
            shuffle: false,
            repeat: Repeat::Off,
        }
    }

    /// The track the index points at.
    pub open spec fn current(self) -> Option<Track> {
        match self.index {
            Some(i) => if i < self.queue.len() {
                Some(self.queue[i as int])
            } else {
                None
            },
            None => None,
        }
    }

    /// Playing, or on the way to it.
    pub open spec fn active(self) -> bool {
        self.status == Status::Playing || self.status == Status::Loading || self.status
            == Status::Stalled
    }

    /// The same queue, loading track `i` from its beginning.
    pub open spec fn loading(self, i: usize) -> Playback {
        Playback { index: Some(i), position_ms: 0, status: Status::Loading, ..self }
    }

    /// There is a queue and a place in it.
    pub open spec fn has_place(self) -> bool {
        self.index is Some && self.queue.len() > 0
    }

    /// There is a track after the current one.
    pub open spec fn has_next(self) -> bool {
        self.has_place() && self.index->0 + 1 < self.queue.len()
    }

    /// Where moving on leads.
    pub open spec fn after_next(self) -> Playback {
        if !self.has_place() {
            self
        } else if self.has_next() {
            self.loading((self.index->0 + 1) as usize)
        } else if self.repeat != Repeat::Off {
            self.loading(0)
        } else {
            Playback { status: Status::Ended, position_ms: 0, ..self }
        }
    }

    /// Where going back leads.
    pub open spec fn after_previous(self) -> Playback {
        if !self.has_place() {
            self
        } else if self.position_ms > RESTART_THRESHOLD_MS {
            Playback { position_ms: 0, ..self }
        } else if self.index->0 > 0 {
            self.loading((self.index->0 - 1) as usize)
        } else if self.repeat != Repeat::Off {
            self.loading((self.queue.len() - 1) as usize)
        } else {
            Playback { position_ms: 0, ..self }
        }
    }
}

/// What the transport shows of playback, and where it goes: one track on, one back,
/// around the end only while repeating, and to the start of the track where more
/// than three seconds of it have been played.
pub proof fn lemma_transport(p: Playback, i: usize)
    ensures
        p.index is Some && p.index->0 < p.queue.len() <==> p.current() is Some,
        p.current() is Some ==> p.current()->0 == p.queue[p.index->0 as int],
        p.active() <==> p.status == Status::Playing || p.status == Status::Loading || p.status
            == Status::Stalled,
        p.loading(i).index == Some(i),
        p.loading(i).position_ms == 0,
        p.loading(i).status == Status::Loading,
        p.loading(i).queue == p.queue,
        p.loading(i).volume == p.volume,
        p.loading(i).shuffle == p.shuffle,
        p.loading(i).repeat == p.repeat,
        p.index is None || p.queue.len() == 0 ==> p.after_next() == p && p.after_previous() == p,
        p.index is Some && p.index->0 + 1 < p.queue.len() && p.queue.len() <= usize::MAX ==> {
            &&& p.after_next().index == Some((p.index->0 + 1) as usize)
            &&& p.after_next().position_ms == 0
            &&& p.after_next().status == Status::Loading
        },
        p.index is Some && p.queue.len() > 0 && p.index->0 + 1 >= p.queue.len() && p.repeat
            != Repeat::Off ==> p.after_next().index == Some(0usize) && p.after_next().status
            == Status::Loading && p.after_next().position_ms == 0,
        p.index is Some && p.queue.len() > 0 && p.index->0 + 1 >= p.queue.len() && p.repeat
            == Repeat::Off ==> p.after_next().index == p.index && p.after_next().status
            == Status::Ended && p.after_next().position_ms == 0,
        p.index is Some && p.queue.len() > 0 && p.position_ms > 3000 ==> p.after_previous().index
            == p.index && p.after_previous().position_ms == 0 && p.after_previous().status
            == p.status,
        p.index is Some && p.queue.len() > 0 && p.position_ms <= 3000 && p.index->0 > 0
            ==> p.after_previous().index == Some((p.index->0 - 1) as usize)
            && p.after_previous().status == Status::Loading && p.after_previous().position_ms == 0,
        p.index == Some(0usize) && p.queue.len() > 0 && p.queue.len() <= usize::MAX && p.position_ms
            <= 3000 && p.repeat != Repeat::Off ==> p.after_previous().index == Some(
            (p.queue.len() - 1) as usize,
        ) && p.after_previous().status == Status::Loading,
        p.index == Some(0usize) && p.queue.len() > 0 && p.position_ms <= 3000 && p.repeat
            == Repeat::Off ==> p.after_previous().index == p.index && p.after_previous().position_ms
            == 0,
{
}

/// The modes of repeating, and the number each goes by.
pub proof fn lemma_repeat_modes()
    ensures
        Repeat::Off.next() == Repeat::All,
        Repeat::All.next() == Repeat::One,
        Repeat::One.next() == Repeat::Off,
        Repeat::Off.mode() == 0,
        Repeat::One.mode() == 1,
        Repeat::All.mode() == 2,
{
}

/// Loading a queue hands over the id of every track, in order, where to start, and
/// then plays.
pub proof fn lemma_loading_hands_over_every_id(
    cmds: Seq<EngineCommand>,
    queue: Seq<Track>,
    start: int,
)
    requires
        loads_queue(cmds, queue, start),
    ensures
        cmds.len() == 2,
        cmds[0] is SetQueue,
        cmds[0]->ids@.len() == queue.len(),
        forall|i: int| 0 <= i < queue.len() ==> #[trigger] cmds[0]->ids@[i] == queue[i].id,
        cmds[0]->start_index == start,
        cmds[1] == EngineCommand::Play,
{
}

/// A length that becomes known changes the length of one track, and nothing else.
pub proof fn lemma_length_becomes_known(queue: Seq<Track>, i: int, duration_ms: u64)
    requires
        0 <= i < queue.len(),
    ensures
        with_duration(queue, i, duration_ms).len() == queue.len(),
        with_duration(queue, i, duration_ms)[i].duration_ms == duration_ms,
        with_duration(queue, i, duration_ms)[i].id == queue[i].id,
        with_duration(queue, i, duration_ms)[i].title == queue[i].title,
        with_duration(queue, i, duration_ms)[i].artist == queue[i].artist,
        with_duration(queue, i, duration_ms)[i].album == queue[i].album,
        forall|j: int|
            0 <= j < queue.len() && j != i ==> #[trigger] with_duration(queue, i, duration_ms)[j]
                == queue[j],
{
}

/// Going back straight after moving on comes back to the same track.
pub proof fn lemma_previous_undoes_next(p: Playback)
    requires
        p.wf(),
        p.queue.len() <= usize::MAX,
        p.has_next() || p.repeat != Repeat::Off,
    ensures
        p.after_next().after_previous().index == p.index,
        p.after_next().after_previous().queue == p.queue,
{
}

/// Moving on straight after going back to another track comes back to the same
/// track.
pub proof fn lemma_next_undoes_previous(p: Playback)
    requires
        p.wf(),
        p.queue.len() <= usize::MAX,
        p.position_ms <= RESTART_THRESHOLD_MS,
        p.repeat != Repeat::Off || p.index is Some && p.index->0 > 0,
    ensures
        p.after_previous().after_next().index == p.index,
        p.after_previous().after_next().queue == p.queue,
{
}

/// Neither moving on nor going back touches the queue or the settings, and
/// neither starts anything on an empty player.
pub proof fn lemma_moves_keep_the_queue(p: Playback)
    ensures
        p.after_next().queue == p.queue,
        p.after_previous().queue == p.queue,
        p.after_next().volume == p.volume,
        p.after_previous().volume == p.volume,
        p.after_next().shuffle == p.shuffle,
        p.after_previous().shuffle == p.shuffle,
        p.after_next().repeat == p.repeat,
        p.after_previous().repeat == p.repeat,
        p.queue.len() == 0 ==> p.after_next() == p && p.after_previous() == p,
{
}

/// Without repeating, moving on at the last track stops there, however often it
/// is asked.
pub proof fn lemma_next_stops_at_the_end(p: Playback)
    requires
        p.wf(),
        p.has_place(),
        !p.has_next(),
        p.repeat == Repeat::Off,
    ensures
        p.after_next().index == p.index,
        p.after_next().status == Status::Ended,
        p.after_next().after_next() == p.after_next(),
{
}

impl View for PlayerState {
    type V = Playback;

    open spec fn view(&self) -> Playback {
        Playback {
            status: self.status,
            queue: self.queue@,
            index: self.index,
            position_ms: self.position_ms,
            volume: self.volume,
            shuffle: self.shuffle,
            repeat: self.repeat,
        }
    }
}

impl Default for PlayerState {
    fn default() -> (r: Self)
        ensures
            r@ == Playback::fresh(),
            r@.status == Status::Idle,
            r@.queue.len() == 0,
            r@.index is None,
            r@.position_ms == 0,
            r@.volume == 100,
            !r@.shuffle,
            r@.repeat == Repeat::Off,
    {
        PlayerState {
            status: Status::Idle,
            queue: Vec::new(),
            index: None,
            position_ms: 0,
            volume: 100,
            shuffle: false,
            repeat: Repeat::Off,
        }
    }
}

/// A copy of a queue.
fn copy_queue(queue: &Vec<Track>) -> (r: Vec<Track>)
    ensures
        r@ == queue@,
{
    let mut r: Vec<Track> = Vec::new();
    let mut i: usize = 0;
    while i < queue.len()
        invariant
            i <= queue@.len(),
            r@ == queue@.take(i as int),
        decreases queue@.len() - i,
    {
        r.push(queue[i].clone());
        assert(queue@.take(i + 1) =~= queue@.take(i as int).push(queue@[i as int]));
        i += 1;
    }
    assert(queue@.take(queue@.len() as int) =~= queue@);
    r
}

impl Clone for PlayerState {
    fn clone(&self) -> (r: Self)
        ensures
            r@ == self@,
    {
        PlayerState {
            status: self.status,
            queue: copy_queue(&self.queue),
            index: self.index,
            position_ms: self.position_ms,
            volume: self.volume,
            shuffle: self.shuffle,
            repeat: self.repeat,
        }
    }
}

impl PlayerState {
    /// The track the index points at.
    pub fn current(&self) -> (r: Option<&Track>)
        ensures
            match r {
                Some(t) => self@.current() == Some(*t),
                None => self@.current() is None,
            },
    {
        match self.index {
            Some(i) => if i < self.queue.len() {
                Some(&self.queue[i])
            } else {
                None
            },
            None => None,
        }
    }

    /// Whether something is playing or about to.
    pub fn is_active(&self) -> (r: bool)
        ensures
            r == self@.active(),
    {
        match self.status {
            Status::Playing => true,
            Status::Loading => true,
            Status::Stalled => true,
            _ => false,
        }
    }
}

/// What a playback state number of the backend means here.
pub open spec fn musickit_status(raw: int) -> Status {
    if raw == 0 || raw == 4 {
        Status::Idle
    } else if raw == 2 {
        Status::Playing
    } else if raw == 3 {
        Status::Paused
    } else if raw == 5 || raw == 10 {
        Status::Ended
    } else if raw == 8 || raw == 9 {
        Status::Stalled
    } else {
        Status::Loading
    }
}

/// Reads a playback state number of the backend.
pub fn map_musickit_state(raw: i64) -> (r: Status)
    ensures
        r == musickit_status(raw as int),
        raw == 2 <==> r == Status::Playing,
        raw == 3 <==> r == Status::Paused,
        raw == 0 || raw == 4 <==> r == Status::Idle,
        raw == 5 || raw == 10 <==> r == Status::Ended,
        raw == 8 || raw == 9 <==> r == Status::Stalled,
{
    match raw {
        0 => Status::Idle,
        1 | 6 => Status::Loading,  // loading, seeking
        2 => Status::Playing,
        3 => Status::Paused,
        4 => Status::Idle,  // stopped
        5 | 10 => Status::Ended,
        8 | 9 => Status::Stalled,  // waiting, stalled
        _ => Status::Loading,
    }
}

/// Past this point "previous" restarts the track instead of leaving it.
pub const RESTART_THRESHOLD_MS: u64 = 3000;

/// Whether `i` is the first place in `queue` that holds `id`.
pub open spec fn first_at(queue: Seq<Track>, id: Seq<char>, i: int) -> bool {
    &&& 0 <= i < queue.len()
    &&& queue[i].id@ == id
    &&& forall|j: int| 0 <= j < i ==> (#[trigger] queue[j]).id@ != id
}

/// Whether `id` is queued at all.
pub open spec fn queued(queue: Seq<Track>, id: Seq<char>) -> bool {
    exists|i: int| first_at(queue, id, i)
}

/// A queue that holds a track with an id has a first one.
pub proof fn lemma_queued(queue: Seq<Track>, id: Seq<char>, i: int)
    requires
        0 <= i < queue.len(),
        queue[i].id@ == id,
    ensures
        queued(queue, id),
        exists|k: int|
            first_at(queue, id, k) && 0 <= k <= i && queue[k].id@ == id && forall|j: int|
                0 <= j < k ==> (#[trigger] queue[j]).id@ != id,
    decreases i,
{
    if forall|j: int| 0 <= j < i ==> (#[trigger] queue[j]).id@ != id {
        assert(first_at(queue, id, i));
    } else {
        let j = choose|j: int| 0 <= j < i && (#[trigger] queue[j]).id@ == id;
        lemma_queued(queue, id, j);
    }
}

/// Where `id` first stands in the queue.
pub fn position_of(queue: &Vec<Track>, id: &str) -> (r: Option<usize>)
    ensures
        match r {
            Some(i) => first_at(queue@, id@, i as int),
            None => forall|j: int| 0 <= j < queue@.len() ==> (#[trigger] queue@[j]).id@ != id@,
        },
        r is Some <==> queued(queue@, id@),
{
    let mut i: usize = 0;
    while i < queue.len()
        invariant
            i <= queue@.len(),
            forall|j: int| 0 <= j < i ==> (#[trigger] queue@[j]).id@ != id@,
        decreases queue@.len() - i,
    {
        if same(queue[i].id.as_str(), id) {
            assert(first_at(queue@, id@, i as int));
            return Some(i);
        }
        i += 1;
    }
    None
}

/// The player: a queue, a place in it, and the rules for moving about.
pub struct Player {
    state: PlayerState,
}

impl View for Player {
    type V = Playback;

    closed spec fn view(&self) -> Playback {
        self.state@
    }
}

impl Default for Player {
    fn default() -> (r: Self)
        ensures
            r@ == Playback::fresh(),
            r@.wf(),
    {
        Self::new()
    }
}

impl Player {
    /// An idle player with nothing queued.
    pub fn new() -> (r: Self)
        ensures
            r@ == Playback::fresh(),
            r@.wf(),
    {
        Player { state: PlayerState::default() }
    }

    /// What the player currently holds.
    pub fn state(&self) -> (r: &PlayerState)
        ensures
            r@ == self@,
    {
        &self.state
    }

    /// Replaces the queue and starts it at `start_index`, or at its last track
    /// if that is past the end. An empty selection changes nothing.
    pub fn play_queue(&mut self, tracks: Vec<Track>, start_index: usize) -> (r: Vec<EngineCommand>)
        requires
            old(self)@.wf(),
        ensures
            final(self)@.wf(),
            tracks@.len() == 0 ==> final(self)@ == old(self)@ && r@.len() == 0,
            tracks@.len() > 0 ==> {
                let start = if start_index < tracks@.len() {
                    start_index
                } else {
                    (tracks@.len() - 1) as usize
                };
                &&& final(self)@ == (Playback { queue: tracks@, ..old(self)@ }).loading(start)
                &&& loads_queue(r@, tracks@, start as int)
            },
    {
        if tracks.len() == 0 {
            return Vec::new();
        }
        let start: usize = if start_index < tracks.len() {
            start_index
        } else {
            tracks.len() - 1
        };
        let ids = collect_ids(&tracks);
        self.state.queue = tracks;
        self.state.index = Some(start);
        self.state.position_ms = 0;
        self.state.status = Status::Loading;
        vec![EngineCommand::SetQueue { ids, start_index: start }, EngineCommand::Play]
    }

    /// Asks the backend to play, if there is anything to play.
    pub fn play(&mut self) -> (r: Vec<EngineCommand>)
        ensures
            final(self)@ == old(self)@,
            r@ == (if old(self)@.index is None {
                Seq::<EngineCommand>::empty()
            } else {
                seq![EngineCommand::Play]
            }),
    {
        if self.state.index.is_none() {
            return Vec::new();
        }
        vec![EngineCommand::Play]
    }

    /// Asks the backend to pause, if it is playing or about to.
    pub fn pause(&mut self) -> (r: Vec<EngineCommand>)
        ensures
            final(self)@ == old(self)@,
            r@ == (if old(self)@.active() {
                seq![EngineCommand::Pause]
            } else {
                Seq::<EngineCommand>::empty()
            }),
    {
        if !self.state.is_active() {
            return Vec::new();
        }
        vec![EngineCommand::Pause]
    }

    /// Pauses while playing, plays otherwise.
    pub fn toggle(&mut self) -> (r: Vec<EngineCommand>)
        ensures
            final(self)@ == old(self)@,
            r@ == (if old(self)@.active() {
                seq![EngineCommand::Pause]
            } else if old(self)@.index is None {
                Seq::<EngineCommand>::empty()
            } else {
                seq![EngineCommand::Play]
            }),
    {
        match self.state.status {
            Status::Playing => self.pause(),
            Status::Loading => self.pause(),
            Status::Stalled => self.pause(),
            Status::Paused => self.play(),
            Status::Ended => self.play(),
            Status::Idle => self.play(),
        }
    }

    /// Moves on: to the next track, or round to the first while repeating, or
    /// to a stop at the end.
    pub fn next_track(&mut self) -> (r: Vec<EngineCommand>)
        requires
            old(self)@.wf(),
        ensures
            final(self)@ == old(self)@.after_next(),
            final(self)@.wf(),
            if old(self)@.has_next() {
                r@ == seq![EngineCommand::SkipNext]
            } else if old(self)@.has_place() && old(self)@.repeat != Repeat::Off {
                loads_queue(r@, old(self)@.queue, 0)
            } else {
                r@.len() == 0
            },
    {
        let i: usize = match self.state.index {
            Some(i) => i,
            None => return Vec::new(),
        };
        let len: usize = self.state.queue.len();
        if len == 0 {
            return Vec::new();
        }
        if i + 1 < len {
            self.state.index = Some(i + 1);
            self.state.position_ms = 0;
            self.state.status = Status::Loading;
            return vec![EngineCommand::SkipNext];
        }
        if self.state.repeat != Repeat::Off {
            return self.jump_to(0);
        }
        self.state.status = Status::Ended;
        self.state.position_ms = 0;
        Vec::new()
    }

    /// Goes back: to the start of the track once it is well under way, else to
    /// the track before, round to the last one while repeating.
    pub fn previous_track(&mut self) -> (r: Vec<EngineCommand>)
        requires
            old(self)@.wf(),
        ensures
            final(self)@ == old(self)@.after_previous(),
            final(self)@.wf(),
            if !old(self)@.has_place() {
                r@.len() == 0
            } else if old(self)@.position_ms > RESTART_THRESHOLD_MS {
                r@ == seq![EngineCommand::Seek { ms: 0 }]
            } else if old(self)@.index->0 > 0 {
                r@ == seq![EngineCommand::SkipPrevious]
            } else if old(self)@.repeat != Repeat::Off {
                loads_queue(r@, old(self)@.queue, old(self)@.queue.len() - 1)
            } else {
                r@ == seq![EngineCommand::Seek { ms: 0 }]
            },
    {
        let i: usize = match self.state.index {
            Some(i) => i,
            None => return Vec::new(),
        };
        if self.state.queue.len() == 0 {
            return Vec::new();
        }
        if self.state.position_ms > RESTART_THRESHOLD_MS {
            self.state.position_ms = 0;
            return vec![EngineCommand::Seek { ms: 0 }];
        }
        if i > 0 {
            self.state.index = Some(i - 1);
            self.state.position_ms = 0;
            self.state.status = Status::Loading;
            return vec![EngineCommand::SkipPrevious];
        }
        if self.state.repeat != Repeat::Off {
            let last: usize = self.state.queue.len() - 1;
            return self.jump_to(last);
        }
        self.state.position_ms = 0;
        vec![EngineCommand::Seek { ms: 0 }]
    }

    /// Hands the queue to the backend again, starting at `index`.
    fn jump_to(&mut self, index: usize) -> (r: Vec<EngineCommand>)
        ensures
            final(self)@ == old(self)@.loading(index),
            loads_queue(r@, old(self)@.queue, index as int),
    {
        self.state.index = Some(index);
        self.state.position_ms = 0;
        self.state.status = Status::Loading;
        let ids = collect_ids(&self.state.queue);
        vec![EngineCommand::SetQueue { ids, start_index: index }, EngineCommand::Play]
    }

    /// Seeks within the current track, no further than its end where its length
    /// is known.
    pub fn seek(&mut self, ms: u64) -> (r: Vec<EngineCommand>)
        requires
            old(self)@.wf(),
        ensures
            final(self)@.wf(),
            match old(self)@.current() {
                None => final(self)@ == old(self)@ && r@.len() == 0,
                Some(t) => {
                    let to = if t.duration_ms > 0 && t.duration_ms < ms {
                        t.duration_ms
                    } else {
                        ms
                    };
                    &&& final(self)@ == (Playback { position_ms: to, ..old(self)@ })
                    &&& r@ == seq![EngineCommand::Seek { ms: to }]
                },
            },
    {
        let duration: u64 = match self.state.current() {
            Some(t) => t.duration_ms,
            None => return Vec::new(),
        };
        let ms: u64 = if duration > 0 && duration < ms {
            duration
        } else {
            ms
        };
        self.state.position_ms = ms;
        vec![EngineCommand::Seek { ms }]
    }

    /// Sets the volume, a percentage.
    pub fn set_volume(&mut self, percent: u8) -> (r: Vec<EngineCommand>)
        requires
            old(self)@.wf(),
        ensures
            final(self)@.wf(),
            ({
                let v = if percent < 100 {
                    percent
                } else {
                    100u8
                };
                &&& final(self)@ == (Playback { volume: v, ..old(self)@ })
                &&& r@ == seq![EngineCommand::SetVolume { percent: v }]
            }),
    {
        let v: u8 = if percent < 100 {
            percent
        } else {
            100
        };
        self.state.volume = v;
        vec![EngineCommand::SetVolume { percent: v }]
    }

    /// Turns shuffling on or off.
    pub fn toggle_shuffle(&mut self) -> (r: Vec<EngineCommand>)
        ensures
            final(self)@ == (Playback { shuffle: !old(self)@.shuffle, ..old(self)@ }),
            r@ == seq![EngineCommand::SetShuffle { on: !old(self)@.shuffle }],
    {
        self.state.shuffle = !self.state.shuffle;
        vec![EngineCommand::SetShuffle { on: self.state.shuffle }]
    }

    /// Steps through off, all and one.
    pub fn cycle_repeat(&mut self) -> (r: Vec<EngineCommand>)
        ensures
            final(self)@ == (Playback { repeat: old(self)@.repeat.next(), ..old(self)@ }),
            r@ == seq![EngineCommand::SetRepeat { mode: old(self)@.repeat.next().mode() }],
    {
        self.state.repeat = self.state.repeat.cycle();
        vec![EngineCommand::SetRepeat { mode: self.state.repeat.musickit_mode() }]
    }

    /// Sets the repeat mode outright.
    pub fn set_repeat(&mut self, r: Repeat)
        ensures
            final(self)@ == (Playback { repeat: r, ..old(self)@ }),
    {
        self.state.repeat = r;
    }

    /// The backend reports a playback state. Advancing at the end of a track is
    /// the backend's own doing, so only repeating asks for anything.
    pub fn on_playback_state(&mut self, raw: i64) -> (r: Vec<EngineCommand>)
        requires
            old(self)@.wf(),
        ensures
            final(self)@.wf(),
            ({
                let seen = Playback { status: musickit_status(raw as int), ..old(self)@ };
                if raw == 5 && old(self)@.repeat == Repeat::One {
                    &&& final(self)@ == (Playback { position_ms: 0, ..seen })
                    &&& r@ == seq![EngineCommand::Seek { ms: 0 }, EngineCommand::Play]
                } else if raw == 10 && old(self)@.repeat != Repeat::Off {
                    &&& final(self)@ == old(self)@.loading(0)
                    &&& loads_queue(r@, old(self)@.queue, 0)
                } else {
                    &&& final(self)@ == seen
                    &&& r@.len() == 0
                }
            }),
    {
        self.state.status = map_musickit_state(raw);
        if raw == 5 {
            if self.state.repeat == Repeat::One {
                self.state.position_ms = 0;
                return vec![EngineCommand::Seek { ms: 0 }, EngineCommand::Play];
            }
            return Vec::new();
        }
        if raw == 10 && self.state.repeat != Repeat::Off {
            return self.jump_to(0);
        }
        Vec::new()
    }

    /// The backend reports where in the track it is.
    pub fn on_position(&mut self, ms: u64)
        ensures
            final(self)@ == (Playback { position_ms: ms, ..old(self)@ }),
    {
        self.state.position_ms = ms;
    }

    /// The backend reports which track it plays and how long it is. An id that
    /// is queued moves the index to it; a known length lands on the current
    /// track.
    pub fn on_now_playing(&mut self, id: &str, duration_ms: u64)
        requires
            old(self)@.wf(),
        ensures
            final(self)@.wf(),
            ({
                let at = final(self)@.index;
                &&& queued(old(self)@.queue, id@) ==> at is Some && first_at(
                    old(self)@.queue,
                    id@,
                    at->0 as int,
                )
                &&& !queued(old(self)@.queue, id@) ==> at == old(self)@.index
                &&& final(self)@ == (Playback {
                    index: at,
                    queue: if duration_ms > 0 && at is Some && at->0 < old(self)@.queue.len() {
                        with_duration(old(self)@.queue, at->0 as int, duration_ms)
                    } else {
                        old(self)@.queue
                    },
                    ..old(self)@
                })
            }),
    {
        if let Some(pos) = position_of(&self.state.queue, id) {
            self.state.index = Some(pos);
        }
        if duration_ms > 0 {
            if let Some(i) = self.state.index {
                if i >= self.state.queue.len() {
                    return;
                }
                let mut t = self.state.queue[i].clone();
                t.duration_ms = duration_ms;
                self.state.queue.set(i, t);
            }
        }
    }

    /// Forgets the queue: what it holds belongs to a source that is gone.
    pub fn reset_queue(&mut self)
        requires
            old(self)@.wf(),
        ensures
            final(self)@.wf(),
            final(self)@ == (Playback {
                status: Status::Idle,
                queue: Seq::empty(),
                index: None,
                position_ms: 0,
                ..old(self)@
            }),
    {
        self.state.status = Status::Idle;
        self.state.queue = Vec::new();
        self.state.index = None;
        self.state.position_ms = 0;
    }

    /// Records a status that the native backend worked out for itself.
    pub fn set_status(&mut self, status: Status)
        ensures
            final(self)@ == (Playback { status, ..old(self)@ }),
    {
        self.state.status = status;
    }
}

/// The queue with the length of track `i` filled in.
pub open spec fn with_duration(queue: Seq<Track>, i: int, duration_ms: u64) -> Seq<Track> {
    queue.update(i, Track { duration_ms, ..queue[i] })
}

/// What is seen of a player's state is each of its fields as it is.
pub proof fn lemma_state_is_seen_whole(s: PlayerState)
    ensures
        s@.status == s.status,
        s@.queue == s.queue@,
        s@.index == s.index,
        s@.position_ms == s.position_ms,
        s@.volume == s.volume,
        s@.shuffle == s.shuffle,
        s@.repeat == s.repeat,
{
}

/// There is a place in a queue that is not empty, and a next one before its end;
/// what plays is the track at that place.
pub proof fn lemma_places(p: Playback)
    ensures
        p.has_place() <==> p.index is Some && p.queue.len() > 0,
        p.has_next() <==> p.index is Some && p.index->0 + 1 < p.queue.len(),
        p.index is Some && p.index->0 < p.queue.len() ==> p.current() == Some(
            p.queue[p.index->0 as int],
        ),
        p.index is None || p.index->0 >= p.queue.len() ==> p.current() is None,
        p.active() <==> p.status == Status::Playing || p.status == Status::Loading || p.status
            == Status::Stalled,
{
}

/// The first track with an id is one, and none before it is.
pub proof fn lemma_first_track(queue: Seq<Track>, id: Seq<char>, i: int, j: int)
    requires
        first_at(queue, id, i),
    ensures
        0 <= i < queue.len(),
        queue[i].id@ == id,
        0 <= j < queue.len() && queue[j].id@ == id ==> i <= j,
{
}

} // verus!
