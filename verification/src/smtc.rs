//! The system's media controls: what they show, and what their buttons mean.

use vstd::prelude::*;
use crate::artwork;
use crate::controls::Intent;
use crate::db::Artwork;
use crate::player::{PlayerState, Status};

verus! {

/// What the media controls show.
#[derive(Debug, PartialEq, Eq)]
pub struct Applied {
    pub title: String,
    pub artist: String,
    pub album: String,
    pub cover: Option<String>,
    /// `None` while the length is not known.
    pub duration_ms: Option<u64>,
    pub playback: MediaPlayback,
}

/// What the media controls say of playback.
#[derive(Debug, Clone, Copy, PartialEq, Eq, Structural)]
pub enum MediaPlayback {
    Playing { position_ms: u64 },
    Paused { position_ms: u64 },
    Stopped,
}

/// What a status looks like in the media controls.
pub open spec fn shown_as(status: Status, position_ms: u64) -> MediaPlayback {
    match status {
        Status::Playing | Status::Loading | Status::Stalled => MediaPlayback::Playing {
            position_ms,
        },
        Status::Paused => MediaPlayback::Paused { position_ms },
        Status::Idle | Status::Ended => MediaPlayback::Stopped,
    }
}

/// What a status looks like in the media controls.
pub fn media_playback(status: Status, position_ms: u64) -> (r: MediaPlayback)
    ensures
        r == shown_as(status, position_ms),
        status == Status::Playing || status == Status::Loading || status == Status::Stalled ==> r
            == (MediaPlayback::Playing { position_ms }),
        status == Status::Paused ==> r == (MediaPlayback::Paused { position_ms }),
        status == Status::Idle || status == Status::Ended ==> r == MediaPlayback::Stopped,
{
    match status {
        Status::Playing => MediaPlayback::Playing { position_ms },
        Status::Loading => MediaPlayback::Playing { position_ms },
        Status::Stalled => MediaPlayback::Playing { position_ms },
        Status::Paused => MediaPlayback::Paused { position_ms },
        Status::Idle => MediaPlayback::Stopped,
        Status::Ended => MediaPlayback::Stopped,
    }
}

/// The size of the cover the media controls show.
pub const COVER_SIZE: u32 = 300;

/// The address of a cover for the media controls.
pub fn cover_url(art: &Artwork) -> (r: String)
    ensures
        artwork::is_resolved(
            art.template@,
            (if COVER_SIZE < art.best() {
                COVER_SIZE
            } else {
                art.best()
            }) as nat,
            r@,
        ),
        art.best() >= 300 ==> artwork::is_resolved(art.template@, 300, r@),
        art.best() < 300 ==> artwork::is_resolved(art.template@, art.best() as nat, r@),
{
    artwork::resolve_template(art.template.as_str(), art.clamp(COVER_SIZE))
}

/// What the media controls show of the player. `cover` is that of the current
/// track, if it has one.
pub fn update(snapshot: &PlayerState, cover: Option<String>) -> (r: Applied)
    ensures
        match snapshot@.current() {
            Some(t) => {
                &&& r.title == t.title
                &&& r.artist == t.artist
                &&& r.album == t.album
                &&& r.cover == cover
                &&& r.duration_ms == (if t.duration_ms > 0 {
                    Some(t.duration_ms)
                } else {
                    None
                })
            },
            None => {
                &&& r.title@.len() == 0
                &&& r.artist@.len() == 0
                &&& r.album@.len() == 0
                &&& r.cover is None
                &&& r.duration_ms is None
            },
        },
        r.playback == shown_as(snapshot@.status, snapshot@.position_ms),
        snapshot@.status == Status::Playing || snapshot@.status == Status::Loading
            || snapshot@.status == Status::Stalled ==> r.playback == (MediaPlayback::Playing {
            position_ms: snapshot@.position_ms,
        }),
        snapshot@.status == Status::Paused ==> r.playback == (MediaPlayback::Paused {
            position_ms: snapshot@.position_ms,
        }),
        snapshot@.status == Status::Idle || snapshot@.status == Status::Ended ==> r.playback
            == MediaPlayback::Stopped,
{
    let playback = media_playback(snapshot.status, snapshot.position_ms);
    match snapshot.current() {
        Some(t) => Applied {
            title: t.title.clone(),
            artist: t.artist.clone(),
            album: t.album.clone(),
            cover,
            duration_ms: if t.duration_ms > 0 {
                Some(t.duration_ms)
            } else {
                None
            },
            playback,
        },
        None => Applied {
            title: String::new(),
            artist: String::new(),
            album: String::new(),
            cover: None,
            duration_ms: None,
            playback,
        },
    }
}

/// A button of the media controls, or a media key.
#[derive(Debug, Clone, Copy, PartialEq, Eq, Structural)]
pub enum MediaEvent {
    Play,
    Pause,
    Toggle,
    Next,
    Previous,
    Stop,
    Other,
}

/// What a button asks for. Stopping pauses, so that playing can go on.
pub fn on_event(event: MediaEvent) -> (r: Option<Intent>)
    ensures
        r == (match event {
            MediaEvent::Play => Some(Intent::Play),
            MediaEvent::Pause => Some(Intent::Pause),
            MediaEvent::Toggle => Some(Intent::Toggle),
            MediaEvent::Next => Some(Intent::Next),
            MediaEvent::Previous => Some(Intent::Previous),
            MediaEvent::Stop => Some(Intent::Pause),
            MediaEvent::Other => None,
        }),
{
    match event {
        MediaEvent::Play => Some(Intent::Play),
        MediaEvent::Pause => Some(Intent::Pause),
        MediaEvent::Toggle => Some(Intent::Toggle),
        MediaEvent::Next => Some(Intent::Next),
        MediaEvent::Previous => Some(Intent::Previous),
        MediaEvent::Stop => Some(Intent::Pause),
        MediaEvent::Other => None,
    }
}

} // verus!
