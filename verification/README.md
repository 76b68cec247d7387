# capsule

The rules of a small music player, verified with Verus: the playback queue, what
the web player and the native player are told, the library mirror, the two
catalogs it is filled from, local files, lyrics, last.fm, covers, themes and the
window.

- `src/` is the library. `player` holds the queue; `commands` is what each command
  of the interface comes to; `sync` is what a run does next; `api`, `subsonic`,
  `lastfm` and `lyrics` build requests and judge replies; `local` turns tags into
  rows; `stream` and `audio` keep the books of native playback; `text` and `order`
  are the groundwork. Every call into another crate, and what is claimed of it,
  stands in `outside`.
- `tests/` runs the library on concrete values.
- `app/` is the program around it: windows, network, disk and sound.
