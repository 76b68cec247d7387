//! The hidden web player: where it lives, and how a command is put to it.

use vstd::prelude::*;
use crate::outside;
use crate::player::EngineCommand;
use crate::text;

verus! {

/// The label of the web player's window.
pub const ENGINE_LABEL: &'static str = "engine";

/// Where the web player lives.
pub const DEFAULT_ENGINE_URL: &'static str = "https://music.apple.com";

/// Where the web player is loaded from: the override, if one is set.
pub fn engine_url(override_url: Option<String>) -> (r: String)
    ensures
        r@ == (match override_url {
            Some(u) => u@,
            None => DEFAULT_ENGINE_URL@,
        }),
        override_url is None ==> r@ == "https://music.apple.com"@,
{
    match override_url {
        Some(u) => u,
        None => DEFAULT_ENGINE_URL.to_string(),
    }
}

/// A text as a script literal.
pub fn js_string(s: &str) -> (r: String)
    ensures
        r@ == outside::json_quoted(s@),
{
    outside::json_quote(s)
}

/// Texts as script literals.
pub open spec fn quoted_all(ids: Seq<String>) -> Seq<Seq<char>> {
    ids.map_values(|s: String| outside::json_quoted(s@))
}

/// The call that a command becomes. Positions and volumes are fractions there,
/// so they are handed in ready to be written: `number` is the seconds of a seek
/// or the volume between zero and one.
pub open spec fn call_of(cmd: EngineCommand, number: Seq<char>) -> Seq<char> {
    match cmd {
        EngineCommand::SetQueue { ids, start_index } => "__saint.setQueue(["@ + text::joined(
            quoted_all(ids@),
            ","@,
        ) + "],"@ + text::decimal(start_index as nat) + ")"@,
        EngineCommand::Play => "__saint.play()"@,
        EngineCommand::Pause => "__saint.pause()"@,
        EngineCommand::Seek { ms } => "__saint.seek("@ + number + ")"@,
        EngineCommand::SetVolume { percent } => "__saint.setVolume("@ + number + ")"@,
        EngineCommand::SkipNext => "__saint.skipNext()"@,
        EngineCommand::SkipPrevious => "__saint.skipPrevious()"@,
        EngineCommand::SetShuffle { on } => "__saint.setShuffle("@ + text::truth(on) + ")"@,
        EngineCommand::SetRepeat { mode } => "__saint.setRepeat("@ + text::decimal(mode as nat)
            + ")"@,
        EngineCommand::Prewarm { id } => "__saint.prewarm("@ + outside::json_quoted(id@) + ")"@,
    }
}

fn wrapped(before: &str, middle: &str, after: &str) -> (r: String)
    ensures
        r@ == before@ + middle@ + after@,
{
    let mut out = before.to_string();
    out.append(middle);
    out.append(after);
    out
}

fn quote_all(ids: &Vec<String>) -> (r: Vec<String>)
    ensures
        text::views(r@) == quoted_all(ids@),
{
    let mut out: Vec<String> = Vec::new();
    let mut i: usize = 0;
    while i < ids.len()
        invariant
            i <= ids@.len(),
            text::views(out@) == quoted_all(ids@.take(i as int)),
        decreases ids@.len() - i,
    {
        let ghost before = text::views(out@);
        out.push(js_string(ids[i].as_str()));
        assert(text::views(out@) =~= before.push(outside::json_quoted(ids@[i as int]@)));
        assert(quoted_all(ids@.take(i + 1)) =~= quoted_all(ids@.take(i as int)).push(
            outside::json_quoted(ids@[i as int]@),
        ));
        i += 1;
    }
    assert(ids@.take(i as int) =~= ids@);
    out
}

/// What the page is told, call by call.
pub proof fn lemma_calls(cmd: EngineCommand, number: Seq<char>)
    ensures
        cmd is Play ==> call_of(cmd, number) == "__saint.play()"@,
        cmd is Pause ==> call_of(cmd, number) == "__saint.pause()"@,
        cmd is SkipNext ==> call_of(cmd, number) == "__saint.skipNext()"@,
        cmd is SkipPrevious ==> call_of(cmd, number) == "__saint.skipPrevious()"@,
        cmd is Seek ==> call_of(cmd, number) == "__saint.seek("@ + number + ")"@,
        cmd is SetVolume ==> call_of(cmd, number) == "__saint.setVolume("@ + number + ")"@,
        cmd == (EngineCommand::SetShuffle { on: true }) ==> call_of(cmd, number)
            == "__saint.setShuffle("@ + "true"@ + ")"@,
        cmd == (EngineCommand::SetShuffle { on: false }) ==> call_of(cmd, number)
            == "__saint.setShuffle("@ + "false"@ + ")"@,
        cmd is SetRepeat ==> call_of(cmd, number) == "__saint.setRepeat("@ + text::decimal(
            cmd->mode as nat,
        ) + ")"@,
        cmd is Prewarm ==> call_of(cmd, number) == "__saint.prewarm("@ + outside::json_quoted(
            cmd->id@,
        ) + ")"@,
        cmd is SetQueue ==> call_of(cmd, number) == "__saint.setQueue(["@ + text::joined(
            cmd->ids@.map_values(|s: String| outside::json_quoted(s@)),
            ","@,
        ) + "],"@ + text::decimal(cmd->start_index as nat) + ")"@,
{
}

/// The script that puts a command to the web player, once it is there. Ids are
/// escaped, never set in as they are. See [`call_of`] for `number`.
pub fn script(cmd: &EngineCommand, number: &str) -> (r: String)
    ensures
        r@ == "window.__saint && "@ + call_of(*cmd, number@),
{
    let js = match cmd {
        EngineCommand::SetQueue { ids, start_index } => {
            let list = quote_all(ids);
            let joined = text::join(&list, ",");
            let index = text::show(*start_index as u64);
            let mut out = wrapped("__saint.setQueue([", joined.as_str(), "],");
            out.append(index.as_str());
            out.append(")");
            out
        },
        EngineCommand::Play => "__saint.play()".to_string(),
        EngineCommand::Pause => "__saint.pause()".to_string(),
        EngineCommand::Seek { ms: _ } => wrapped("__saint.seek(", number, ")"),
        EngineCommand::SetVolume { percent: _ } => wrapped("__saint.setVolume(", number, ")"),
        EngineCommand::SkipNext => "__saint.skipNext()".to_string(),
        EngineCommand::SkipPrevious => "__saint.skipPrevious()".to_string(),
        EngineCommand::SetShuffle { on } => wrapped(
            "__saint.setShuffle(",
            text::show_bool(*on),
            ")",
        ),
        EngineCommand::SetRepeat { mode } => {
            let n = text::show(*mode as u64);
            wrapped("__saint.setRepeat(", n.as_str(), ")")
        },
        EngineCommand::Prewarm { id } => {
            let literal = js_string(id.as_str());
            wrapped("__saint.prewarm(", literal.as_str(), ")")
        },
    };
    text::concat("window.__saint && ", js.as_str())
}

} // verus!
