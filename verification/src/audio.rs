//! Native playback: loads that overtake one another, seeks that come too early,
//! and the ticker that notices when a track has ended.

use vstd::prelude::*;
use crate::player::{EngineCommand, Playback, Player, Repeat, Status};
use crate::text;

verus! {

/// Why a track cannot be played.
#[derive(Debug, PartialEq, Eq)]
pub enum AudioError {
    Device(String),
    Decode(String),
    Io(String),
}

impl AudioError {
    /// The message shown for this error.
    pub open spec fn text(self) -> Seq<char> {
        match self {
            AudioError::Device(e) => "no audio output device available: "@ + e@,
            AudioError::Decode(e) => "this track's format could not be decoded: "@ + e@,
            AudioError::Io(e) => "io: "@ + e@,
        }
    }

    /// The message shown for this error.
    pub fn message(&self) -> (r: String)
        ensures
            r@ == self.text(),
            r@ == (match *self {
                AudioError::Device(e) => "no audio output device available: "@ + e@,
                AudioError::Decode(e) => "this track's format could not be decoded: "@ + e@,
                AudioError::Io(e) => "io: "@ + e@,
            }),
    {
        match self {
            AudioError::Device(e) => text::concat("no audio output device available: ", e.as_str()),
            AudioError::Decode(e) => text::concat(
                "this track's format could not be decoded: ",
                e.as_str(),
            ),
            AudioError::Io(e) => text::concat("io: ", e.as_str()),
        }
    }
}

// ── loading ────────────────────────────────────────────────────────────

/// Which load is the latest, whether one is under way, and a seek that is held
/// until it is done.
pub struct Loads {
    generation: u64,
    loading: bool,
    pending_seek: Option<u64>,
}

/// The content of [`Loads`].
pub struct LoadState {
    pub generation: u64,
    pub loading: bool,
    pub pending_seek: Option<u64>,
}

impl View for Loads {
    type V = LoadState;

    closed spec fn view(&self) -> LoadState {
        LoadState {
            generation: self.generation,
            loading: self.loading,
            pending_seek: self.pending_seek,
        }
    }
}

/// What to do with a decoder that has come about, or has not.
#[derive(Debug, PartialEq, Eq)]
pub enum DecodeStep {
    /// A newer load has begun; this one has nothing more to say.
    Superseded,
    /// Play it, from this position if one is given.
    Append { seek_ms: Option<u64> },
    /// Report this.
    Fail(String),
}

impl Loads {
    /// Nothing has been loaded.
    pub fn new() -> (r: Self)
        ensures
            r@ == (LoadState { generation: 0, loading: false, pending_seek: None }),
    {
        Loads { generation: 0, loading: false, pending_seek: None }
    }

    /// A load begins; the number it goes by.
    pub fn begin(&mut self) -> (mine: u64)
        requires
            old(self)@.generation < u64::MAX,
        ensures
            mine == old(self)@.generation + 1,
            final(self)@ == (LoadState { generation: mine, loading: true, ..old(self)@ }),
    {
        self.generation = self.generation + 1;
        self.loading = true;
        self.generation
    }

    /// Whether a load is still the latest.
    pub fn is_current(&self, mine: u64) -> (r: bool)
        ensures
            r == (self@.generation == mine),
    {
        self.generation == mine
    }

    /// Whether a load is under way.
    pub fn is_loading(&self) -> (r: bool)
        ensures
            r == self@.loading,
    {
        self.loading
    }

    /// The decoder of load `mine` came about, or could not be made. If a newer
    /// load began meanwhile it is dropped: playing it now would play the wrong
    /// track, and a held seek belongs to the newer one.
    pub fn on_decoded(&mut self, mine: u64, error: Option<String>) -> (r: DecodeStep)
        ensures
            if old(self)@.generation != mine {
                r == DecodeStep::Superseded && final(self)@ == old(self)@
            } else if error is Some {
                &&& r is Fail
                &&& r->Fail_0@ == "could not decode this track: "@ + error->0@
                &&& final(self)@ == old(self)@
            } else {
                &&& r == (DecodeStep::Append { seek_ms: old(self)@.pending_seek })
                &&& final(self)@ == (LoadState { pending_seek: None, ..old(self)@ })
            },
    {
        if self.generation != mine {
            return DecodeStep::Superseded;
        }
        if let Some(e) = error {
            return DecodeStep::Fail(text::concat("could not decode this track: ", e.as_str()));
        }
        let seek_ms: Option<u64> = self.pending_seek;
        self.pending_seek = None;
        DecodeStep::Append { seek_ms }
    }

    /// The thread of load `mine` is through, however it ended. A newer load is
    /// still under way then: an empty sink must not pass for the end of a track.
    pub fn on_thread_end(&mut self, mine: u64)
        ensures
            final(self)@ == (if old(self)@.generation == mine {
                LoadState { loading: false, ..old(self)@ }
            } else {
                old(self)@
            }),
    {
        if self.generation == mine {
            self.loading = false;
        }
    }

    /// A seek is asked for; where to go now, or nothing while it must be held.
    /// Before there is a decoder it cannot be applied, and dropping it would
    /// snap the bar back.
    pub fn seek(&mut self, ms: u64) -> (r: Option<u64>)
        ensures
            if old(self)@.loading {
                r is None && final(self)@ == (LoadState { pending_seek: Some(ms), ..old(self)@ })
            } else {
                r == Some(ms) && final(self)@ == old(self)@
            },
    {
        if self.loading {
            self.pending_seek = Some(ms);
            return None;
        }
        Some(ms)
    }

    /// Playback stops; a held seek goes with it.
    pub fn stop(&mut self)
        ensures
            final(self)@ == (LoadState { pending_seek: None, ..old(self)@ }),
    {
        self.pending_seek = None;
    }
}

// ── ticking ────────────────────────────────────────────────────────────

/// Whether a track has just ended. Asks for the edge: asking for emptiness alone
/// would skip on at every tick while idle.
pub fn track_ended(was_playing: bool, sink_empty: bool) -> (r: bool)
    ensures
        r == (was_playing && sink_empty),
{
    was_playing && sink_empty
}

/// What the native engine reports.
#[derive(Debug, PartialEq, Eq)]
pub struct EngineReport {
    pub error: Option<String>,
    pub loading: bool,
    pub empty: bool,
    pub paused: bool,
    pub position_ms: u64,
}

/// What a tick asks for, in this order.
#[derive(Debug, PartialEq, Eq)]
pub struct TickActions {
    /// Tell the interface that playback failed.
    pub report_error: Option<String>,
    /// Stop the engine.
    pub stop: bool,
    /// Show the player's state.
    pub publish: bool,
    /// Carry these out, and show the player's state.
    pub advance: Option<Vec<EngineCommand>>,
    /// Stop the engine after that: the queue has ended.
    pub stop_after: bool,
}

/// Polls the native engine.
pub struct Ticker {
    was_playing: bool,
}

impl Ticker {
    /// Whether something was playing at the last tick.
    pub closed spec fn playing(&self) -> bool {
        self.was_playing
    }

    /// Nothing was playing.
    pub fn new() -> (r: Self)
        ensures
            !r.playing(),
    {
        Ticker { was_playing: false }
    }

    /// One tick, with what the engine reports, if there is one.
    ///
    /// A failure stops playback rather than skipping on, which would tear
    /// through a whole queue while a server is down. The end of a track takes
    /// the same path as the next button, so repeat behaves the same either way.
    pub fn tick(&mut self, engine: Option<EngineReport>, player: &mut Player) -> (r: TickActions)
        requires
            old(player)@.wf(),
        ensures
            final(player)@.wf(),
            match engine {
                None => {
                    &&& !final(self).playing()
                    &&& final(player)@ == old(player)@
                    &&& r.report_error is None && !r.stop && !r.publish && r.advance is None
                        && !r.stop_after
                },
                Some(e) => if e.error is Some {
                    &&& !final(self).playing()
                    &&& final(player)@ == (Playback { status: Status::Idle, ..old(player)@ })
                    &&& r.report_error == e.error && r.stop && r.publish && r.advance is None
                        && !r.stop_after
                } else if e.loading {
                    &&& !final(self).playing()
                    &&& final(player)@ == old(player)@
                    &&& r.report_error is None && !r.stop && !r.publish && r.advance is None
                        && !r.stop_after
                } else if !e.empty {
                    &&& final(self).playing()
                    &&& final(player)@ == (Playback {
                        status: if e.paused {
                            Status::Paused
                        } else {
                            Status::Playing
                        },
                        position_ms: e.position_ms,
                        ..old(player)@
                    })
                    &&& r.report_error is None && !r.stop && r.publish && r.advance is None
                        && !r.stop_after
                } else if old(self).playing() {
                    &&& !final(self).playing()
                    &&& final(player)@ == old(player)@.after_next()
                    &&& r.report_error is None && !r.stop && !r.publish
                    &&& r.advance is Some
                    &&& if old(player)@.has_next() {
                        r.advance->0@ == seq![EngineCommand::SkipNext]
                    } else if old(player)@.has_place() && old(player)@.repeat != Repeat::Off {
                        crate::player::loads_queue(r.advance->0@, old(player)@.queue, 0)
                    } else {
                        r.advance->0@.len() == 0
                    }
                    &&& r.stop_after == (final(player)@.status == Status::Ended)
                } else {
                    &&& !final(self).playing()
                    &&& final(player)@ == old(player)@
                    &&& r.report_error is None && !r.stop && !r.publish && r.advance is None
                        && !r.stop_after
                },
            },
    {
        let idle = TickActions {
            report_error: None,
            stop: false,
            publish: false,
            advance: None,
            stop_after: false,
        };
        let e = match engine {
            Some(e) => e,
            None => {
                self.was_playing = false;
                return idle;
            },
        };
        if let Some(err) = e.error {
            self.was_playing = false;
            player.set_status(Status::Idle);
            return TickActions {
                report_error: Some(err),
                stop: true,
                publish: true,
                advance: None,
                stop_after: false,
            };
        }
        if e.loading {
            self.was_playing = false;
            return idle;
        }
        let ended = track_ended(self.was_playing, e.empty);
        self.was_playing = !e.empty;
        if !e.empty {
            player.set_status(
                if e.paused {
                    Status::Paused
                } else {
                    Status::Playing
                },
            );
            player.on_position(e.position_ms);
            return TickActions {
                report_error: None,
                stop: false,
                publish: true,
                advance: None,
                stop_after: false,
            };
        }
        if ended {
            let commands = player.next_track();
            let stop_after = player.state().status == Status::Ended;
            return TickActions {
                report_error: None,
                stop: false,
                publish: false,
                advance: Some(commands),
                stop_after,
            };
        }
        idle
    }
}

} // verus!
