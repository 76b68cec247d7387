//! The ways to steer playback that do not go through the interface: the tray,
//! the taskbar and the system's media controls. They all come down to the same
//! few intents, so none can drift from the others.

use vstd::prelude::*;
use crate::player;
use crate::player::{EngineCommand, Playback, Player, Repeat, RESTART_THRESHOLD_MS};
use crate::text;

verus! {

/// What someone wants of the player.
#[derive(Debug, Clone, Copy, PartialEq, Eq, Structural)]
pub enum Intent {
    Play,
    Pause,
    Toggle,
    Next,
    Previous,
}

/// Where an intent takes the player. Playing and pausing wait for the backend to
/// report.
pub open spec fn intended(p: Playback, intent: Intent) -> Playback {
    match intent {
        Intent::Next => p.after_next(),
        Intent::Previous => p.after_previous(),
        _ => p,
    }
}

/// Whether commands are what an intent asks of the backend.
pub open spec fn is_asked(p: Playback, intent: Intent, cmds: Seq<EngineCommand>) -> bool {
    match intent {
        Intent::Play => cmds == (if p.index is None {
            Seq::<EngineCommand>::empty()
        } else {
            seq![EngineCommand::Play]
        }),
        Intent::Pause => cmds == (if p.active() {
            seq![EngineCommand::Pause]
        } else {
            Seq::<EngineCommand>::empty()
        }),
        Intent::Toggle => cmds == (if p.active() {
            seq![EngineCommand::Pause]
        } else if p.index is None {
            Seq::<EngineCommand>::empty()
        } else {
            seq![EngineCommand::Play]
        }),
        Intent::Next => if p.has_next() {
            cmds == seq![EngineCommand::SkipNext]
        } else if p.has_place() && p.repeat != Repeat::Off {
            player::loads_queue(cmds, p.queue, 0)
        } else {
            cmds.len() == 0
        },
        Intent::Previous => if !p.has_place() {
            cmds.len() == 0
        } else if p.position_ms > RESTART_THRESHOLD_MS {
            cmds == seq![EngineCommand::Seek { ms: 0 }]
        } else if p.index->0 > 0 {
            cmds == seq![EngineCommand::SkipPrevious]
        } else if p.repeat != Repeat::Off {
            player::loads_queue(cmds, p.queue, p.queue.len() - 1)
        } else {
            cmds == seq![EngineCommand::Seek { ms: 0 }]
        },
    }
}

/// Carries an intent out.
pub fn perform(player: &mut Player, intent: Intent) -> (r: Vec<EngineCommand>)
    requires
        old(player)@.wf(),
    ensures
        final(player)@.wf(),
        final(player)@ == intended(old(player)@, intent),
        is_asked(old(player)@, intent, r@),
        intent == Intent::Play || intent == Intent::Pause || intent == Intent::Toggle
            ==> final(player)@ == old(player)@,
        intent == Intent::Next ==> final(player)@ == old(player)@.after_next(),
        intent == Intent::Previous ==> final(player)@ == old(player)@.after_previous(),
        intent == Intent::Play && old(player)@.index is Some ==> r@ == seq![EngineCommand::Play],
        intent == Intent::Pause && old(player)@.active() ==> r@ == seq![EngineCommand::Pause],
        intent == Intent::Toggle && old(player)@.active() ==> r@ == seq![EngineCommand::Pause],
        intent == Intent::Toggle && !old(player)@.active() && old(player)@.index is Some ==> r@
            == seq![EngineCommand::Play],
        intent == Intent::Next && old(player)@.has_next() ==> r@ == seq![EngineCommand::SkipNext],
        intent == Intent::Previous && old(player)@.position_ms <= 3000 && old(player)@.has_place()
            && old(player)@.index->0 > 0 ==> r@ == seq![EngineCommand::SkipPrevious],
        intent == Intent::Previous && old(player)@.position_ms > 3000 && old(player)@.has_place()
            ==> r@ == seq![EngineCommand::Seek { ms: 0 }],
        old(player)@.index is None ==> r@.len() == 0 || intent == Intent::Pause || intent
            == Intent::Toggle,
        intent == Intent::Pause && !old(player)@.active() ==> r@.len() == 0,
        intent == Intent::Toggle && !old(player)@.active() && old(player)@.index is None ==> r@.len()
            == 0,
        intent == Intent::Next && !old(player)@.has_next() && old(player)@.has_place() && old(
            player,
        )@.repeat != Repeat::Off ==> r@.len() == 2 && r@[0] is SetQueue && r@[0]->start_index == 0
            && r@[0]->ids@ == player::track_ids(old(player)@.queue) && r@[1] == EngineCommand::Play,
        intent == Intent::Next && !old(player)@.has_next() && old(player)@.repeat == Repeat::Off
            ==> r@.len() == 0,
        intent == Intent::Previous && old(player)@.position_ms <= 3000 && old(player)@.has_place()
            && old(player)@.index->0 == 0 && old(player)@.repeat == Repeat::Off ==> r@
            == seq![EngineCommand::Seek { ms: 0 }],
        intent == Intent::Previous && old(player)@.position_ms <= 3000 && old(player)@.has_place()
            && old(player)@.index->0 == 0 && old(player)@.repeat != Repeat::Off ==> r@.len() == 2
            && r@[0] is SetQueue && r@[0]->start_index == old(player)@.queue.len() - 1
            && r@[0]->ids@ == player::track_ids(old(player)@.queue) && r@[1] == EngineCommand::Play,
{
    match intent {
        Intent::Play => player.play(),
        Intent::Pause => player.pause(),
        Intent::Toggle => player.toggle(),
        Intent::Next => player.next_track(),
        Intent::Previous => player.previous_track(),
    }
}

// ── the tray ───────────────────────────────────────────────────────────

/// What a menu item does.
#[derive(Debug, Clone, Copy, PartialEq, Eq, Structural)]
pub enum TrayAction {
    Steer(Intent),
    ShowWindow,
    Quit,
    Nothing,
}

/// What the menu item with an id does.
pub fn tray_action(id: &str) -> (r: TrayAction)
    ensures
        r == (if id@ == "playpause"@ {
            TrayAction::Steer(Intent::Toggle)
        } else if id@ == "next"@ {
            TrayAction::Steer(Intent::Next)
        } else if id@ == "prev"@ {
            TrayAction::Steer(Intent::Previous)
        } else if id@ == "show"@ {
            TrayAction::ShowWindow
        } else if id@ == "quit"@ {
            TrayAction::Quit
        } else {
            TrayAction::Nothing
        }),
{
    if text::same(id, "playpause") {
        TrayAction::Steer(Intent::Toggle)
    } else if text::same(id, "next") {
        TrayAction::Steer(Intent::Next)
    } else if text::same(id, "prev") {
        TrayAction::Steer(Intent::Previous)
    } else if text::same(id, "show") {
        TrayAction::ShowWindow
    } else if text::same(id, "quit") {
        TrayAction::Quit
    } else {
        TrayAction::Nothing
    }
}

/// One entry of the tray menu.
#[derive(Debug, PartialEq, Eq)]
pub enum MenuEntry {
    Item { id: &'static str, label: &'static str },
    Separator,
}

/// The tray menu, from top to bottom.
pub fn tray_menu() -> (r: Vec<MenuEntry>)
    ensures
        r@.len() == 6,
        r@[0] is Item && r@[0]->id@ == "playpause"@ && r@[0]->label@ == "Play / Pause"@,
        r@[1] is Item && r@[1]->id@ == "next"@ && r@[1]->label@ == "Next"@,
        r@[2] is Item && r@[2]->id@ == "prev"@ && r@[2]->label@ == "Previous"@,
        r@[3] is Separator,
        r@[4] is Item && r@[4]->id@ == "show"@ && r@[4]->label@ == "Show capsule"@,
        r@[5] is Item && r@[5]->id@ == "quit"@ && r@[5]->label@ == "Quit"@,
{
    vec![
        MenuEntry::Item { id: "playpause", label: "Play / Pause" },
        MenuEntry::Item { id: "next", label: "Next" },
        MenuEntry::Item { id: "prev", label: "Previous" },
        MenuEntry::Separator,
        MenuEntry::Item { id: "show", label: "Show capsule" },
        MenuEntry::Item { id: "quit", label: "Quit" },
    ]
}

} // verus!
