//! The buttons on the taskbar's preview of the window.
//!
//! They cannot be added when the window is made: the taskbar announces its own
//! button later, and again if it restarts.

use vstd::prelude::*;
use crate::controls::Intent;
use crate::player::Status;

verus! {

pub const ID_PREV: u32 = 1;

pub const ID_PLAY_PAUSE: u32 = 2;

pub const ID_NEXT: u32 = 3;

/// What the high half of a command says when a button was clicked.
pub const THBN_CLICKED: u16 = 0x1800;

/// The picture on a button.
#[derive(Debug, Clone, Copy, PartialEq, Eq, Structural)]
pub enum Glyph {
    Previous,
    Play,
    Pause,
    Next,
}

/// What the middle button shows: pause only while something plays.
pub fn play_pause(status: Status) -> (r: (Glyph, &'static str))
    ensures
        status == Status::Playing ==> r.0 == Glyph::Pause && r.1@ == "Pause"@,
        status != Status::Playing ==> r.0 == Glyph::Play && r.1@ == "Play"@,
{
    match status {
        Status::Playing => (Glyph::Pause, "Pause"),
        _ => (Glyph::Play, "Play"),
    }
}

/// A button: its id, its picture and its tip.
#[derive(Debug, PartialEq, Eq)]
pub struct Button {
    pub id: u32,
    pub glyph: Glyph,
    pub tip: &'static str,
}

/// The buttons, from left to right.
pub fn buttons(status: Status) -> (r: Vec<Button>)
    ensures
        r@.len() == 3,
        r@[0].id == ID_PREV && r@[0].glyph == Glyph::Previous && r@[0].tip@ == "Previous"@,
        r@[1].id == ID_PLAY_PAUSE,
        status == Status::Playing ==> r@[1].glyph == Glyph::Pause && r@[1].tip@ == "Pause"@,
        status != Status::Playing ==> r@[1].glyph == Glyph::Play && r@[1].tip@ == "Play"@,
        r@[2].id == ID_NEXT && r@[2].glyph == Glyph::Next && r@[2].tip@ == "Next"@,
{
    let (glyph, tip) = play_pause(status);
    vec![
        Button { id: ID_PREV, glyph: Glyph::Previous, tip: "Previous" },
        Button { id: ID_PLAY_PAUSE, glyph, tip },
        Button { id: ID_NEXT, glyph: Glyph::Next, tip: "Next" },
    ]
}

/// The button that a command says was clicked; `None` if it says something else.
pub fn clicked_button(wparam: usize) -> (r: Option<u32>)
    ensures
        r == (if (wparam as int / 65536) % 65536 == THBN_CLICKED {
            Some((wparam as int % 65536) as u32)
        } else {
            None
        }),
        r is Some <==> (wparam as int / 65536) % 65536 == 0x1800,
{
    let high: usize = (wparam / 65536) % 65536;
    if high != THBN_CLICKED as usize {
        return None;
    }
    Some((wparam % 65536) as u32)
}

/// A click on a button is read back as that button.
pub proof fn lemma_clicks_are_read_back(id: u16)
    ensures
        ({
            let wparam = THBN_CLICKED as int * 65536 + id as int;
            (wparam / 65536) % 65536 == THBN_CLICKED && wparam % 65536 == id
        }),
{
}

/// What a click on a button asks for.
pub fn on_click(id: u32) -> (r: Option<Intent>)
    ensures
        r == (if id == ID_PREV {
            Some(Intent::Previous)
        } else if id == ID_PLAY_PAUSE {
            Some(Intent::Toggle)
        } else if id == ID_NEXT {
            Some(Intent::Next)
        } else {
            None
        }),
        r == Some(Intent::Previous) <==> id == 1,
        r == Some(Intent::Toggle) <==> id == 2,
        r == Some(Intent::Next) <==> id == 3,
{
    if id == ID_PREV {
        Some(Intent::Previous)
    } else if id == ID_PLAY_PAUSE {
        Some(Intent::Toggle)
    } else if id == ID_NEXT {
        Some(Intent::Next)
    } else {
        None
    }
}

/// What a window message asks of the taskbar buttons.
#[derive(Debug, Clone, Copy, PartialEq, Eq, Structural)]
pub enum BarMessage {
    /// The taskbar has a button for the window: add ours, even if they were
    /// added before.
    AddButtons,
    /// A button was clicked.
    Clicked { id: u32 },
    /// The message is not for the buttons.
    NotOurs,
}

/// Reads a window message. `created` is the number of the taskbar's
/// announcement, once it is known; `command` that of a command.
pub fn handle_message(msg: u32, wparam: usize, created: Option<u32>, command: u32) -> (r: BarMessage)
    ensures
        r == (if created == Some(msg) {
            BarMessage::AddButtons
        } else if msg == command && (wparam as int / 65536) % 65536 == THBN_CLICKED {
            BarMessage::Clicked { id: (wparam as int % 65536) as u32 }
        } else {
            BarMessage::NotOurs
        }),
{
    if let Some(c) = created {
        if c == msg {
            return BarMessage::AddButtons;
        }
    }
    if msg == command {
        if let Some(id) = clicked_button(wparam) {
            return BarMessage::Clicked { id };
        }
    }
    BarMessage::NotOurs
}

} // verus!
