//! What a presence card shows.

use vstd::prelude::*;
use crate::outside;
use crate::player::{Status, Track};
use crate::text;

verus! {

/// Not white space, and invisible.
pub const ZERO_WIDTH_SPACE: char = '\u{200B}';

/// A value of at least two characters behind trimming, which the service insists
/// on; it rejects the whole card otherwise.
pub open spec fn padded(s: Seq<char>) -> Seq<char> {
    if text::blank(s) {
        "--"@
    } else if text::trimmed(s).len() < 2 {
        text::trimmed(s).push(ZERO_WIDTH_SPACE)
    } else {
        s
    }
}

/// Pads a value to what the service insists on. A plain space would be trimmed
/// away again, so a zero-width one is used.
pub fn pad(s: &str) -> (r: String)
    ensures
        r@ == padded(s@),
        text::trimmed(r@).len() >= 2,
        text::trimmed(s@).len() >= 2 ==> r@ == s@,
        text::trimmed(s@).len() == 1 ==> r@ == seq![text::trimmed(s@)[0], '\u{200B}'],
        text::trimmed(s@).len() == 0 ==> r@ == "--"@,
{
    proof {
        lemma_padding_survives_trimming(s@);
        text::lemma_trimmed_blank(s@);
    }
    if text::is_blank(s) {
        return "--".to_string();
    }
    let mut kept = text::trim(s);
    let v = text::to_chars(kept.as_str());
    if v.len() < 2 {
        kept.push(ZERO_WIDTH_SPACE);
        assert(kept@ =~= seq![text::trimmed(s@)[0], '\u{200B}']);
        kept
    } else {
        s.to_string()
    }
}

/// Padding survives trimming: whatever the value, two characters stay. One that
/// already has two is left as it is.
pub proof fn lemma_padding_survives_trimming(s: Seq<char>)
    ensures
        text::trimmed(padded(s)).len() >= 2,
        text::trimmed(s).len() >= 2 ==> padded(s) == s,
{
    reveal_strlit("--");
    text::lemma_trimmed_blank(s);
    let t = text::trimmed(s);
    if text::blank(s) {
        assert(!text::is_space("--"@[0]));
        assert(!text::is_space("--"@.last()));
    } else if t.len() < 2 {
        text::lemma_trimmed_start(s);
        text::lemma_trimmed_end(text::trimmed_start(s));
        assert(t.len() == 1);
        let p = padded(s);
        assert(p[0] == t.last());
        assert(!text::is_space(ZERO_WIDTH_SPACE));
        assert(p.last() == ZERO_WIDTH_SPACE);
    }
}

/// When the clock of a card starts. Only a track that plays has one: a clock that
/// never moves looks broken.
pub fn start_epoch_at(status: Status, reading: Option<(u64, u32)>) -> (r: Option<i64>)
    ensures
        r == (if status == Status::Playing && reading is Some {
            Some((reading->0).0 as i64)
        } else {
            None
        }),
{
    if status != Status::Playing {
        return None;
    }
    match reading {
        Some((secs, _)) => Some(
            #[verifier::truncate]
            (secs as i64),
        ),
        None => None,
    }
}

/// When the clock of a card starts: now, for a track that plays.
pub fn start_epoch(status: Status) -> (r: Option<i64>)
    ensures
        status != Status::Playing ==> r is None,
{
    start_epoch_at(status, outside::since_epoch())
}

/// What a presence card shows.
#[derive(Debug, PartialEq, Eq)]
pub struct Card {
    pub details: String,
    pub state: String,
    pub large_image: Option<String>,
    pub large_text: Option<String>,
    pub start: Option<i64>,
}

/// The card of a track, with a given clock reading. `image` is an address that
/// can be reached from the public network; a private one renders nothing.
pub fn card_at(
    track: &Track,
    status: Status,
    image: Option<String>,
    reading: Option<(u64, u32)>,
) -> (r: Card)
    ensures
        r.details@ == padded(track.title@),
        r.state@ == padded(track.artist@),
        r.large_image == image,
        text::view_of(r.large_text) == (if text::blank(track.album@) {
            None
        } else {
            Some(padded(track.album@))
        }),
        r.start == (if status == Status::Playing && reading is Some {
            Some((reading->0).0 as i64)
        } else {
            None
        }),
{
    let large_text = if text::is_blank(track.album.as_str()) {
        None
    } else {
        Some(pad(track.album.as_str()))
    };
    Card {
        details: pad(track.title.as_str()),
        state: pad(track.artist.as_str()),
        large_image: image,
        large_text,
        start: start_epoch_at(status, reading),
    }
}

/// The card of a track now.
pub fn card(track: &Track, status: Status, image: Option<String>) -> (r: Card)
    ensures
        r.details@ == padded(track.title@),
        r.state@ == padded(track.artist@),
        r.large_image == image,
        text::view_of(r.large_text) == (if text::blank(track.album@) {
            None
        } else {
            Some(padded(track.album@))
        }),
        status != Status::Playing ==> r.start is None,
{
    card_at(track, status, image, outside::since_epoch())
}

} // verus!
