//! Time-synced lyrics: reading the LRC format, finding the line to show, and
//! choosing among the answers of a lookup.

use vstd::prelude::*;
use crate::db::SongLookup;
use crate::order;
use crate::outside;
use crate::text;

verus! {

// ── the LRC format ─────────────────────────────────────────────────────

/// A line and when it begins.
#[derive(Debug, PartialEq, Eq)]
pub struct Line {
    pub at_ms: u64,
    pub text: String,
}

/// The digits that a text begins with.
pub open spec fn leading_digits(s: Seq<char>) -> Seq<char>
    decreases s.len(),
{
    if s.len() > 0 && text::is_digit(s[0]) {
        seq![s[0]] + leading_digits(s.skip(1))
    } else {
        Seq::empty()
    }
}

/// The milliseconds that the digits behind the point give: tenths, hundredths,
/// or else the last three digits as they stand.
pub open spec fn fraction(digits: Seq<char>) -> Option<nat> {
    if digits.len() == 0 || text::value(digits) > u64::MAX {
        None
    } else if digits.len() == 1 {
        Some(100 * text::value(digits))
    } else if digits.len() == 2 {
        Some(10 * text::value(digits))
    } else {
        Some(text::value(digits) % 1000)
    }
}

/// How many characters stand before the first point or colon.
pub open spec fn index_of_mark(s: Seq<char>) -> int {
    let a = text::index_of(s, '.');
    let b = text::index_of(s, ':');
    if a < b {
        a
    } else {
        b
    }
}

/// The time a tag such as `01:02.50` gives, in milliseconds: minutes, seconds
/// below sixty, and perhaps a fraction. Any other tag gives none, and neither
/// does a time too large to count.
pub open spec fn stamp(tag: Seq<char>) -> Option<nat> {
    let colon = text::index_of(tag, ':');
    let rest = tag.skip(colon + 1);
    let mark = index_of_mark(rest);
    let mins = text::read_unsigned(text::trimmed(tag.take(colon)), u64::MAX as nat);
    let secs = text::read_unsigned(text::trimmed(rest.take(mark)), u64::MAX as nat);
    let millis = if mark < rest.len() {
        fraction(leading_digits(rest.skip(mark + 1)))
    } else {
        Some(0nat)
    };
    if colon == tag.len() || mins is None || secs is None || secs->0 >= 60 || millis is None {
        None
    } else {
        let ms = (mins->0 * 60 + secs->0) * 1000 + millis->0;
        if ms > u64::MAX {
            None
        } else {
            Some(ms)
        }
    }
}

/// The end of the digits that begin at `from`.
fn digits_end(v: &Vec<char>, from: usize) -> (r: usize)
    requires
        from <= v@.len(),
    ensures
        from <= r <= v@.len(),
        v@.subrange(from as int, r as int) == leading_digits(v@.skip(from as int)),
{
    let mut i: usize = from;
    while i < v.len() && '0' <= v[i] && v[i] <= '9'
        invariant
            from <= i <= v@.len(),
            leading_digits(v@.skip(from as int)) == v@.subrange(from as int, i as int)
                + leading_digits(v@.skip(i as int)),
        decreases v@.len() - i,
    {
        assert(v@.skip(i as int)[0] == v@[i as int]);
        assert(v@.skip(i as int).skip(1) =~= v@.skip(i + 1));
        assert(v@.subrange(from as int, i as int) + leading_digits(v@.skip(i as int)) =~= v@.subrange(
            from as int,
            i + 1,
        ) + leading_digits(v@.skip(i + 1)));
        i += 1;
    }
    assert(i < v@.len() ==> v@.skip(i as int)[0] == v@[i as int]);
    assert(leading_digits(v@.skip(i as int)) =~= Seq::empty());
    assert(v@.subrange(from as int, i as int) + Seq::<char>::empty() =~= v@.subrange(
        from as int,
        i as int,
    ));
    i
}

/// What leads a text is digits.
proof fn lemma_leading_digits(s: Seq<char>)
    ensures
        text::all_digits(leading_digits(s)),
    decreases s.len(),
{
    if s.len() > 0 && text::is_digit(s[0]) {
        lemma_leading_digits(s.skip(1));
    }
}

/// The milliseconds that the digits behind the point give.
fn parse_fraction(digits: &str) -> (r: Option<u64>)
    requires
        text::all_digits(digits@),
    ensures
        match r {
            Some(n) => fraction(digits@) == Some(n as nat) && n < 1000,
            None => fraction(digits@) is None,
        },
{
    let v = text::to_chars(digits);
    proof {
        if digits@.len() > 0 {
            assert(text::is_digit(digits@[0]));
        }
    }
    let n: u64 = match text::parse_unsigned(digits, u64::MAX) {
        Some(n) => n,
        None => return None,
    };
    if v.len() == 1 {
        proof {
            reveal_with_fuel(text::value, 2);
            assert(text::is_digit(digits@[0]));
            assert(digits@.drop_last() =~= Seq::empty());
        }
        Some(n * 100)
    } else if v.len() == 2 {
        proof {
            reveal_with_fuel(text::value, 3);
            assert(text::is_digit(digits@[0]));
            assert(text::is_digit(digits@[1]));
            assert(digits@.drop_last().drop_last() =~= Seq::empty());
        }
        Some(n * 10)
    } else {
        Some(n % 1000)
    }
}

/// The time a tag gives.
pub fn parse_stamp(tag: &str) -> (r: Option<u64>)
    ensures
        match r {
            Some(ms) => stamp(tag@) == Some(ms as nat),
            None => stamp(tag@) is None,
        },
{
    let v = text::to_chars(tag);
    let colon: usize = text::find_char(&v, 0, v.len(), ':');
    assert(v@.subrange(0, v@.len() as int) =~= v@);
    if colon == v.len() {
        return None;
    }
    let head = text::slice(&v, 0, colon);
    assert(head@ =~= tag@.take(colon as int));
    let head = text::trim(head.as_str());
    let mins: u64 = match text::parse_unsigned(head.as_str(), u64::MAX) {
        Some(n) => n,
        None => return None,
    };
    let from: usize = colon + 1;
    let ghost rest = tag@.skip(from as int);
    assert(v@.subrange(from as int, v@.len() as int) =~= rest);
    let dot: usize = text::find_char(&v, from, v.len(), '.');
    let second: usize = text::find_char(&v, from, v.len(), ':');
    let mark: usize = if dot < second {
        dot
    } else {
        second
    };
    assert(mark - from == index_of_mark(rest));
    let middle = text::slice(&v, from, mark);
    assert(middle@ =~= rest.take(mark - from));
    let middle = text::trim(middle.as_str());
    let secs: u64 = match text::parse_unsigned(middle.as_str(), u64::MAX) {
        Some(n) => n,
        None => return None,
    };
    if secs >= 60 {
        return None;
    }
    let millis: u64 = if mark < v.len() {
        let end: usize = digits_end(&v, mark + 1);
        assert(v@.skip(mark + 1) =~= rest.skip(mark - from + 1));
        let digits = text::slice(&v, mark + 1, end);
        proof {
            lemma_leading_digits(v@.skip(mark + 1));
        }
        match parse_fraction(digits.as_str()) {
            Some(n) => n,
            None => return None,
        }
    } else {
        0
    };
    let ms: u128 = (mins as u128 * 60 + secs as u128) * 1000 + millis as u128;
    if ms > u64::MAX as u128 {
        None
    } else {
        Some(ms as u64)
    }
}

/// The times that a line begins with, one tag after another.
pub open spec fn line_stamps(s: Seq<char>) -> Seq<nat>
    decreases s.len(),
{
    let close = text::index_of(s, ']');
    if s.len() > 0 && s[0] == '[' && close < s.len() && stamp(s.subrange(1, close)) is Some {
        proof {
            text::lemma_index_of(s, ']');
            text::lemma_trimmed_start(s.skip(close + 1));
        }
        seq![stamp(s.subrange(1, close))->0] + line_stamps(text::trimmed_start(s.skip(close + 1)))
    } else {
        Seq::empty()
    }
}

/// What follows the times of a line.
pub open spec fn line_rest(s: Seq<char>) -> Seq<char>
    decreases s.len(),
{
    let close = text::index_of(s, ']');
    if s.len() > 0 && s[0] == '[' && close < s.len() && stamp(s.subrange(1, close)) is Some {
        proof {
            text::lemma_index_of(s, ']');
            text::lemma_trimmed_start(s.skip(close + 1));
        }
        line_rest(text::trimmed_start(s.skip(close + 1)))
    } else {
        s
    }
}

/// A line's words under one of its times.
pub struct Timed {
    pub at_ms: nat,
    pub text: Seq<char>,
}

/// The words of a line, once for each of its times. A line without a time gives
/// nothing; one without words marks a pause.
pub open spec fn timed_line(raw: Seq<char>) -> Seq<Timed> {
    let s = text::trimmed(raw);
    line_stamps(s).map_values(
        |ms: nat| Timed { at_ms: ms, text: text::trimmed(line_rest(s)) },
    )
}

/// The words of all lines, in the order of the file.
pub open spec fn timed_lines(lines: Seq<Seq<char>>) -> Seq<Timed>
    decreases lines.len(),
{
    if lines.len() == 0 {
        Seq::empty()
    } else {
        timed_lines(lines.drop_last()) + timed_line(lines.last())
    }
}

/// The words of a file, in the order of the file.
pub open spec fn timed(body: Seq<char>) -> Seq<Timed> {
    timed_lines(text::split(body, '\n'))
}

/// When each entry begins.
pub open spec fn times(entries: Seq<Timed>) -> Seq<int> {
    entries.map_values(|t: Timed| t.at_ms as int)
}

/// Whether a line holds an entry.
pub open spec fn holds(line: Line, t: Timed) -> bool {
    line.at_ms == t.at_ms && line.text@ == t.text
}

/// Whether lines hold these entries, earliest first, entries of one time in the
/// order they stood in.
pub open spec fn is_sorted_from(lines: Seq<Line>, entries: Seq<Timed>) -> bool {
    &&& lines.len() == entries.len()
    &&& exists|p: Seq<int>| #[trigger]
        order::is_stable_order(times(entries), p) && forall|k: int|
            0 <= k < lines.len() ==> holds(#[trigger] lines[k], entries[p[k]])
}

/// What lines hold.
pub open spec fn entries_of(lines: Seq<Line>) -> Seq<Timed> {
    lines.map_values(|l: Line| Timed { at_ms: l.at_ms as nat, text: l.text@ })
}

/// The words of two bodies with a line break between them are those of the one
/// and then those of the other.
proof fn lemma_timed_joined(a: Seq<char>, b: Seq<char>)
    ensures
        timed(a + seq!['\n'] + b) == timed(a) + timed(b),
{
    text::lemma_split_joined(a, b, '\n');
    lemma_timed_lines_joined(text::split(a, '\n'), text::split(b, '\n'));
}

proof fn lemma_timed_lines_joined(a: Seq<Seq<char>>, b: Seq<Seq<char>>)
    ensures
        timed_lines(a + b) == timed_lines(a) + timed_lines(b),
    decreases b.len(),
{
    if b.len() == 0 {
        assert(a + b =~= a);
        assert(timed_lines(a) + timed_lines(b) =~= timed_lines(a));
    } else {
        assert((a + b).drop_last() =~= a + b.drop_last());
        lemma_timed_lines_joined(a, b.drop_last());
        assert(timed_lines(a + b) =~= timed_lines(a) + timed_lines(b));
    }
}

/// Reading two bodies with a line break between them gives the lines of the one
/// and those of the other, merged by time: lines of one time keep the order of
/// the file.
pub proof fn lemma_joined_bodies_merge(
    a: Seq<char>,
    b: Seq<char>,
    lines_a: Seq<Line>,
    lines_b: Seq<Line>,
    lines: Seq<Line>,
)
    requires
        is_sorted_from(lines_a, timed(a)),
        is_sorted_from(lines_b, timed(b)),
        is_sorted_from(lines, timed(a + seq!['\n'] + b)),
    ensures
        is_sorted_from(lines, entries_of(lines_a + lines_b)),
{
    lemma_timed_joined(a, b);
    let ea = timed(a);
    let eb = timed(b);
    let e = ea + eb;
    let pa = choose|p: Seq<int>| #[trigger]
        order::is_stable_order(times(ea), p) && forall|k: int|
            0 <= k < lines_a.len() ==> holds(#[trigger] lines_a[k], ea[p[k]]);
    let pb = choose|p: Seq<int>| #[trigger]
        order::is_stable_order(times(eb), p) && forall|k: int|
            0 <= k < lines_b.len() ==> holds(#[trigger] lines_b[k], eb[p[k]]);
    let p = choose|p: Seq<int>| #[trigger]
        order::is_stable_order(times(e), p) && forall|k: int|
            0 <= k < lines.len() ==> holds(#[trigger] lines[k], e[p[k]]);
    assert(times(e) =~= times(ea) + times(eb));
    order::lemma_sorting_in_parts(times(ea), times(eb), pa, pb, p);
    let both = lines_a + lines_b;
    let keys = order::in_order(times(ea), pa) + order::in_order(times(eb), pb);
    assert forall|j: int| 0 <= j < both.len() implies holds(
        #[trigger] both[j],
        e[order::place_before(pa, pb, j)],
    ) && keys[j] == both[j].at_ms by {
        if j < lines_a.len() {
            assert(holds(lines_a[j], ea[pa[j]]));
            assert(0 <= pa[j] < ea.len());
        } else {
            let m = j - lines_a.len();
            assert(holds(lines_b[m], eb[pb[m]]));
            assert(0 <= pb[m] < eb.len());
        }
    }
    assert(keys =~= times(entries_of(both)));
    let q = choose|q: Seq<int>| #[trigger]
        order::is_stable_order(keys, q) && forall|k: int|
            0 <= k < q.len() ==> order::place_before(pa, pb, #[trigger] q[k]) == p[k];
    assert forall|k: int| 0 <= k < lines.len() implies holds(
        #[trigger] lines[k],
        entries_of(both)[q[k]],
    ) by {
        assert(0 <= q[k] < both.len());
        assert(holds(lines[k], e[p[k]]));
        assert(holds(both[q[k]], e[order::place_before(pa, pb, q[k])]));
    }
    assert(order::is_stable_order(times(entries_of(both)), q));
}

/// Reading is settled: two readings of one body hold the same, line by line.
pub proof fn lemma_reading_is_settled(entries: Seq<Timed>, a: Seq<Line>, b: Seq<Line>)
    requires
        is_sorted_from(a, entries),
        is_sorted_from(b, entries),
    ensures
        entries_of(a) == entries_of(b),
{
    let p = choose|p: Seq<int>| #[trigger]
        order::is_stable_order(times(entries), p) && forall|k: int|
            0 <= k < a.len() ==> holds(#[trigger] a[k], entries[p[k]]);
    let q = choose|q: Seq<int>| #[trigger]
        order::is_stable_order(times(entries), q) && forall|k: int|
            0 <= k < b.len() ==> holds(#[trigger] b[k], entries[q[k]]);
    order::lemma_order_is_unique(times(entries), p, q);
    assert forall|k: int| 0 <= k < a.len() implies entries_of(a)[k] == entries_of(b)[k] by {
        assert(holds(a[k], entries[p[k]]));
        assert(holds(b[k], entries[p[k]]));
    }
    assert(entries_of(a) =~= entries_of(b));
}

/// The words of a line stand in it as they are shown, letter by letter.
proof fn lemma_line_rest_is_a_piece(s: Seq<char>)
    ensures
        text::is_piece(line_rest(s), s),
    decreases s.len(),
{
    let close = text::index_of(s, ']');
    if s.len() > 0 && s[0] == '[' && close < s.len() && stamp(s.subrange(1, close)) is Some {
        text::lemma_index_of(s, ']');
        let rest = s.skip(close + 1);
        text::lemma_trimmed_start(rest);
        text::lemma_trimmed_is_a_piece(rest);
        let next = text::trimmed_start(rest);
        lemma_line_rest_is_a_piece(next);
        assert(rest =~= s.subrange(close + 1, s.len() as int));
        text::lemma_piece_of_piece(next, rest, s);
        text::lemma_piece_of_piece(line_rest(next), next, s);
    } else {
        assert(s =~= s.subrange(0, s.len() as int));
    }
}

proof fn lemma_timed_line_is_a_piece(raw: Seq<char>, i: int)
    requires
        0 <= i < timed_line(raw).len(),
    ensures
        text::is_piece(timed_line(raw)[i].text, raw),
{
    let s = text::trimmed(raw);
    text::lemma_trimmed_is_a_piece(raw);
    lemma_line_rest_is_a_piece(s);
    text::lemma_trimmed_is_a_piece(line_rest(s));
    text::lemma_piece_of_piece(line_rest(s), s, raw);
    text::lemma_piece_of_piece(text::trimmed(line_rest(s)), line_rest(s), raw);
}

proof fn lemma_timed_lines_are_pieces(lines: Seq<Seq<char>>, i: int) -> (j: int)
    requires
        0 <= i < timed_lines(lines).len(),
    ensures
        0 <= j < lines.len(),
        text::is_piece(timed_lines(lines)[i].text, lines[j]),
    decreases lines.len(),
{
    let front = timed_lines(lines.drop_last());
    if i < front.len() {
        let j = lemma_timed_lines_are_pieces(lines.drop_last(), i);
        j
    } else {
        lemma_timed_line_is_a_piece(lines.last(), i - front.len());
        lines.len() - 1
    }
}

/// Every line that is read stands in the file, letter by letter, on one of its
/// lines.
pub proof fn lemma_lines_stand_in_the_file(body: Seq<char>, lines: Seq<Line>, k: int)
    requires
        is_sorted_from(lines, timed(body)),
        0 <= k < lines.len(),
    ensures
        text::is_piece(lines[k].text@, body),
        exists|j: int|
            0 <= j < text::split(body, '\n').len() && text::is_piece(
                lines[k].text@,
                #[trigger] text::split(body, '\n')[j],
            ),
{
    let entries = timed(body);
    let p = choose|p: Seq<int>| #[trigger]
        order::is_stable_order(times(entries), p) && forall|k: int|
            0 <= k < lines.len() ==> holds(#[trigger] lines[k], entries[p[k]]);
    assert(holds(lines[k], entries[p[k]]));
    assert(0 <= p[k] < times(entries).len());
    let j = lemma_timed_lines_are_pieces(text::split(body, '\n'), p[k]);
    text::lemma_split_gives_pieces(body, '\n', j);
    text::lemma_piece_of_piece(lines[k].text@, text::split(body, '\n')[j], body);
}

/// A time in brackets is read off the front of a line, and what follows it is read
/// in turn: more times, or the words.
pub proof fn lemma_times_are_read_in_turn(tag: Seq<char>, rest: Seq<char>)
    requires
        !tag.contains(']'),
        stamp(tag) is Some,
    ensures
        line_stamps(seq!['['] + tag + seq![']'] + rest) == seq![stamp(tag)->0] + line_stamps(
            text::trimmed_start(rest),
        ),
        line_rest(seq!['['] + tag + seq![']'] + rest) == line_rest(text::trimmed_start(rest)),
{
    let s = seq!['['] + tag + seq![']'] + rest;
    let close = tag.len() as int + 1;
    assert forall|j: int| 0 <= j < close implies s[j] != ']' by {
        if j > 0 {
            assert(tag.contains(tag[j - 1]));
            assert(s[j] == tag[j - 1]);
        }
    }
    text::lemma_index_of_is(s, ']', close);
    assert(s.subrange(1, close) =~= tag);
    assert(s.skip(close + 1) =~= rest);
}

/// One time and words behind it are one line, at that time, with those words just
/// as they stand.
pub proof fn lemma_a_line_is_read_as_it_stands(
    tag: Seq<char>,
    words: Seq<char>,
    lines: Seq<Line>,
)
    requires
        !tag.contains(']'),
        !tag.contains('\n'),
        stamp(tag) is Some,
        text::trimmed(words) == words,
        !words.contains('\n'),
        words.len() > 0 ==> words[0] != '[',
        is_sorted_from(lines, timed(seq!['['] + tag + seq![']'] + words)),
    ensures
        lines.len() == 1,
        lines[0].at_ms == stamp(tag)->0,
        lines[0].text@ == words,
{
    let body = seq!['['] + tag + seq![']'] + words;
    assert forall|j: int| 0 <= j < body.len() implies body[j] != '\n' by {
        if 0 < j <= tag.len() {
            assert(tag.contains(tag[j - 1]));
            assert(body[j] == tag[j - 1]);
        } else if j > tag.len() + 1 {
            assert(words.contains(words[j - tag.len() - 2]));
            assert(body[j] == words[j - tag.len() - 2]);
        }
    }
    text::lemma_index_of_is(body, '\n', body.len() as int);
    let all = text::split(body, '\n');
    assert(all == seq![body]);
    assert(all.drop_last() =~= Seq::empty());
    if words.len() > 0 {
        text::lemma_trimmed_ends(words);
        assert(body.last() == words.last());
    } else {
        assert(body.last() == ']');
        assert(text::trimmed_start(words) =~= words);
    }
    text::lemma_trimmed_keeps(body, body.len() - 1);
    lemma_times_are_read_in_turn(tag, words);
    assert(line_stamps(words) =~= Seq::empty());
    assert(line_rest(words) == words);
    let entries = timed(body);
    assert(line_stamps(body) =~= seq![stamp(tag)->0]);
    assert(timed_lines(all.drop_last()).len() == 0);
    assert(entries =~= timed_line(body));
    assert(timed_line(body).len() == 1);
    assert(timed_line(body)[0] == (Timed { at_ms: stamp(tag)->0, text: words }));
    let p = choose|p: Seq<int>| #[trigger]
        order::is_stable_order(times(entries), p) && forall|k: int|
            0 <= k < lines.len() ==> holds(#[trigger] lines[k], entries[p[k]]);
    assert(0 <= p[0] < times(entries).len());
    assert(holds(lines[0], entries[p[0]]));
}

/// A line that begins with no time is dropped.
pub proof fn lemma_untimed_lines_are_dropped(raw: Seq<char>)
    requires
        text::trimmed(raw).len() == 0 || text::trimmed(raw)[0] != '[',
    ensures
        timed_line(raw).len() == 0,
{
}

/// Two digits.
pub open spec fn two_digits(n: nat) -> Seq<char> {
    seq![text::digit(n / 10), text::digit(n % 10)]
}

/// A time reads as it is written: minutes, seconds, and hundredths or none.
pub proof fn lemma_stamps_read_times(minutes: nat, seconds: nat, hundredths: nat)
    requires
        seconds < 60,
        hundredths < 100,
        (minutes * 60 + seconds) * 1000 + 10 * hundredths <= u64::MAX,
    ensures
        stamp(text::decimal(minutes) + seq![':'] + two_digits(seconds)) == Some(
            ((minutes * 60 + seconds) * 1000) as nat,
        ),
        stamp(
            text::decimal(minutes) + seq![':'] + two_digits(seconds) + seq!['.'] + two_digits(
                hundredths,
            ),
        ) == Some(((minutes * 60 + seconds) * 1000 + 10 * hundredths) as nat),
{
    let m = text::decimal(minutes);
    let s2 = two_digits(seconds);
    let h2 = two_digits(hundredths);
    lemma_two_digits(seconds);
    lemma_two_digits(hundredths);
    text::lemma_decimal(minutes);
    text::lemma_decimal_reads_back(minutes, u64::MAX as nat);
    let k = m.len() as int;
    assert(text::is_digit(m[0]) && text::is_digit(m[k - 1]));
    text::lemma_trimmed_keeps(m, k - 1);
    text::lemma_trimmed_keeps(s2, 1);
    assert forall|j: int| 0 <= j < k implies m[j] != ':' by {
        assert(text::is_digit(m[j]));
    }
    let a = m + seq![':'] + s2;
    text::lemma_index_of_is(a, ':', k);
    assert(a.take(k) =~= m);
    assert(a.skip(k + 1) =~= s2);
    text::lemma_index_of_is(s2, ':', 2);
    text::lemma_index_of_is(s2, '.', 2);
    assert(s2.take(2) =~= s2);
    let b = a + seq!['.'] + h2;
    text::lemma_index_of_is(b, ':', k);
    assert(b.take(k) =~= m);
    let rest = b.skip(k + 1);
    assert(rest =~= s2 + seq!['.'] + h2);
    assert forall|j: int| 0 <= j < 5 implies rest[j] != ':' by {
        if j < 2 {
            assert(rest[j] == s2[j]);
        } else if j > 2 {
            assert(rest[j] == h2[j - 3]);
        }
    }
    text::lemma_index_of_is(rest, ':', 5);
    text::lemma_index_of_is(rest, '.', 2);
    assert(rest.take(2) =~= s2);
    assert(rest.skip(3) =~= h2);
    assert(leading_digits(h2) == h2) by {
        assert(h2.skip(1) =~= seq![h2[1]]);
        assert(h2.skip(1).skip(1) =~= Seq::empty());
        reveal_with_fuel(leading_digits, 3);
        assert(leading_digits(h2) =~= h2);
    }
}

proof fn lemma_two_digits(n: nat)
    requires
        n < 100,
    ensures
        text::is_digit(two_digits(n)[0]),
        text::is_digit(two_digits(n)[1]),
        text::all_digits(two_digits(n)),
        text::value(two_digits(n)) == n,
        text::read_unsigned(two_digits(n), u64::MAX as nat) == Some(n),
{
    let d = two_digits(n);
    reveal_with_fuel(text::value, 3);
    assert(d.drop_last() =~= seq![d[0]]);
    assert(d.drop_last().drop_last() =~= Seq::empty());
}

/// The times of one line, and what follows them.
fn read_line(raw: &str) -> (r: (Vec<u64>, String))
    ensures
        r.0@.map_values(|ms: u64| ms as nat) == line_stamps(text::trimmed(raw@)),
        r.1@ == text::trimmed(line_rest(text::trimmed(raw@))),
{
    let line = text::trim(raw);
    let v = text::to_chars(line.as_str());
    let ghost s = line@;
    let mut stamps: Vec<u64> = Vec::new();
    let mut i: usize = 0;
    assert(v@.skip(0) =~= s);
    assert(stamps@.map_values(|ms: u64| ms as nat) + line_stamps(s) =~= line_stamps(s));
    while i < v.len() && v[i] == '['
        invariant_except_break
            v@ == s,
            i <= v@.len(),
            stamps@.map_values(|ms: u64| ms as nat) + line_stamps(v@.skip(i as int))
                == line_stamps(s),
            line_rest(v@.skip(i as int)) == line_rest(s),
        ensures
            v@ == s,
            i <= v@.len(),
            stamps@.map_values(|ms: u64| ms as nat) == line_stamps(s),
            line_rest(s) == v@.skip(i as int),
        decreases v@.len() - i,
    {
        let ghost here = v@.skip(i as int);
        assert(here[0] == v@[i as int]);
        let close: usize = text::find_char(&v, i, v.len(), ']');
        assert(v@.subrange(i as int, v@.len() as int) =~= here);
        if close == v.len() {
            assert(line_stamps(here) =~= Seq::empty());
            assert(stamps@.map_values(|ms: u64| ms as nat) + Seq::<nat>::empty() =~= stamps@.map_values(
                |ms: u64| ms as nat,
            ));
            break;
        }
        proof {
            text::lemma_index_of(here, ']');
            assert(close > i);
        }
        let tag = text::slice(&v, i + 1, close);
        assert(tag@ =~= here.subrange(1, close - i));
        match parse_stamp(tag.as_str()) {
            Some(ms) => {
                let ghost before = stamps@.map_values(|ms: u64| ms as nat);
                let next: usize = text::skip_space(&v, close + 1);
                assert(v@.skip(close + 1) =~= here.skip(close - i + 1));
                stamps.push(ms);
                assert(stamps@.map_values(|ms: u64| ms as nat) =~= before.push(ms as nat));
                assert(stamps@.map_values(|ms: u64| ms as nat) + line_stamps(v@.skip(next as int))
                    =~= before + line_stamps(here));
                i = next;
            },
            None => {
                assert(line_stamps(here) =~= Seq::empty());
                assert(stamps@.map_values(|ms: u64| ms as nat) + Seq::<nat>::empty()
                    =~= stamps@.map_values(|ms: u64| ms as nat));
                break;
            },
        }
    }
    let rest = text::slice(&v, i, v.len());
    assert(rest@ =~= v@.skip(i as int));
    (stamps, text::trim(rest.as_str()))
}

/// Reads an LRC file: the timed lines, earliest first, lines of one time in the
/// order of the file. Tags that are no time, and lines without one, are dropped.
pub fn parse_lrc(body: &str) -> (r: Vec<Line>)
    ensures
        is_sorted_from(r@, timed(body@)),
        forall|k: int| 0 <= k < r@.len() ==> text::is_piece((#[trigger] r@[k]).text@, body@),
        forall|i: int, j: int| 0 <= i <= j < r@.len() ==> r@[i].at_ms <= r@[j].at_ms,
{
    let lines = text::split_on(body, '\n');
    let ghost all = text::split(body@, '\n');
    let mut found: Vec<Line> = Vec::new();
    let mut keys: Vec<i128> = Vec::new();
    let mut i: usize = 0;
    assert(all.take(0) =~= Seq::empty());
    while i < lines.len()
        invariant
            all == text::views(lines@),
            i <= lines@.len(),
            found@.len() == timed_lines(all.take(i as int)).len(),
            keys@.len() == found@.len(),
            forall|k: int|
                0 <= k < found@.len() ==> holds(
                    #[trigger] found@[k],
                    timed_lines(all.take(i as int))[k],
                ),
            forall|k: int| 0 <= k < found@.len() ==> keys@[k] == (#[trigger] found@[k]).at_ms,
        decreases lines@.len() - i,
    {
        let ghost before = timed_lines(all.take(i as int));
        let ghost new = timed_line(all[i as int]);
        let (stamps, words) = read_line(lines[i].as_str());
        assert(all[i as int] == lines@[i as int]@);
        let mut j: usize = 0;
        while j < stamps.len()
            invariant
                stamps@.map_values(|ms: u64| ms as nat) == line_stamps(
                    text::trimmed(all[i as int]),
                ),
                words@ == text::trimmed(line_rest(text::trimmed(all[i as int]))),
                new == timed_line(all[i as int]),
                j <= stamps@.len(),
                found@.len() == before.len() + j,
                keys@.len() == found@.len(),
                forall|k: int|
                    0 <= k < before.len() ==> holds(#[trigger] found@[k], before[k]),
                forall|k: int|
                    before.len() <= k < found@.len() ==> holds(
                        #[trigger] found@[k],
                        new[k - before.len()],
                    ),
                forall|k: int| 0 <= k < found@.len() ==> keys@[k] == (#[trigger] found@[k]).at_ms,
            decreases stamps@.len() - j,
        {
            let ms: u64 = stamps[j];
            assert(stamps@.map_values(|ms: u64| ms as nat)[j as int] == ms);
            assert(new[j as int].at_ms == ms);
            keys.push(ms as i128);
            found.push(Line { at_ms: ms, text: words.clone() });
            j += 1;
        }
        assert(stamps@.map_values(|ms: u64| ms as nat).len() == stamps@.len());
        assert(all.take(i + 1).drop_last() =~= all.take(i as int));
        assert(all.take(i + 1).last() == all[i as int]);
        assert(timed_lines(all.take(i + 1)) =~= before + new);
        i += 1;
    }
    assert(all.take(i as int) =~= all);
    let ghost entries = timed(body@);
    let ord = order::stable_order(&keys);
    let ghost p = order::places(ord@);
    assert(order::ints(keys@) =~= times(entries)) by {
        assert forall|k: int| 0 <= k < keys@.len() implies keys@[k] == (#[trigger] entries[k]).at_ms by {
            assert(holds(found@[k], entries[k]));
        }
    }
    let mut out: Vec<Line> = Vec::new();
    let mut k: usize = 0;
    while k < ord.len()
        invariant
            p == order::places(ord@),
            order::is_stable_order(times(entries), p),
            found@.len() == entries.len(),
            forall|k: int| 0 <= k < found@.len() ==> holds(#[trigger] found@[k], entries[k]),
            k <= ord@.len(),
            out@.len() == k,
            forall|m: int| 0 <= m < out@.len() ==> holds(#[trigger] out@[m], entries[p[m]]),
        decreases ord@.len() - k,
    {
        let at: usize = ord[k];
        assert(p[k as int] == at);
        let l = &found[at];
        assert(holds(*l, entries[at as int]));
        out.push(Line { at_ms: l.at_ms, text: l.text.clone() });
        k += 1;
    }
    proof {
        assert forall|i: int, j: int| 0 <= i <= j < out@.len() implies out@[i].at_ms
            <= out@[j].at_ms by {
            assert(holds(out@[i], entries[p[i]]));
            assert(holds(out@[j], entries[p[j]]));
            if i < j {
                assert(times(entries)[p[i]] <= times(entries)[p[j]]);
            }
        }
        assert(is_sorted_from(out@, entries));
        assert forall|k: int| 0 <= k < out@.len() implies text::is_piece(
            (#[trigger] out@[k]).text@,
            body@,
        ) by {
            lemma_lines_stand_in_the_file(body@, out@, k);
        }
    }
    out
}

// ── the line to show ───────────────────────────────────────────────────

/// Lines from the earliest to the latest.
pub open spec fn in_time_order(lines: Seq<Line>) -> bool {
    forall|i: int, j: int| 0 <= i <= j < lines.len() ==> lines[i].at_ms <= lines[j].at_ms
}

/// Whether line `i` is the one to show at a position: the last that has begun.
pub open spec fn is_active(lines: Seq<Line>, position_ms: u64, i: int) -> bool {
    &&& 0 <= i < lines.len()
    &&& lines[i].at_ms <= position_ms
    &&& i + 1 < lines.len() ==> lines[i + 1].at_ms > position_ms
}

/// The line to show at a position. Before the first line there is none; past the
/// last one it stays.
pub fn active_line(lines: &Vec<Line>, position_ms: u64) -> (r: Option<usize>)
    requires
        in_time_order(lines@),
    ensures
        match r {
            Some(i) => is_active(lines@, position_ms, i as int) && i < lines@.len()
                && lines@[i as int].at_ms <= position_ms && forall|j: int|
                i < j < lines@.len() ==> (#[trigger] lines@[j]).at_ms > position_ms,
            None => forall|i: int| 0 <= i < lines@.len() ==> (#[trigger] lines@[i]).at_ms
                > position_ms,
        },
{
    if lines.len() == 0 || position_ms < lines[0].at_ms {
        return None;
    }
    let mut lo: usize = 0;
    let mut hi: usize = lines.len();
    while hi - lo > 1
        invariant
            in_time_order(lines@),
            lo < hi <= lines@.len(),
            lines@[lo as int].at_ms <= position_ms,
            hi < lines@.len() ==> lines@[hi as int].at_ms > position_ms,
        decreases hi - lo,
    {
        let mid: usize = lo + (hi - lo) / 2;
        if lines[mid].at_ms <= position_ms {
            lo = mid;
        } else {
            hi = mid;
        }
    }
    Some(lo)
}

/// As the position moves on, the line to show never goes back.
pub proof fn lemma_active_line_moves_on(lines: Seq<Line>, p: u64, q: u64, i: int, j: int)
    requires
        in_time_order(lines),
        p <= q,
        is_active(lines, p, i),
        is_active(lines, q, j),
    ensures
        i <= j,
{
    if j < i {
        assert(lines[j + 1].at_ms <= lines[i].at_ms);
    }
}

// ── looking lyrics up ──────────────────────────────────────────────────

/// One answer of a search. `distance` grows with how far its length is from the
/// track's; an answer of unknown length is further than any other.
#[derive(Debug, PartialEq, Eq)]
pub struct LrclibHit {
    pub distance: u64,
    pub plain_lyrics: Option<String>,
    pub synced_lyrics: Option<String>,
}

/// Whether optional lyrics say something.
pub open spec fn has_text(s: Option<String>) -> bool {
    s is Some && !text::blank(s->0@)
}

fn says_something(s: &Option<String>) -> (r: bool)
    ensures
        r == has_text(*s),
{
    match s {
        Some(t) => !text::is_blank(t.as_str()),
        None => false,
    }
}

fn non_blank(s: Option<String>) -> (r: Option<String>)
    ensures
        r == (if has_text(s) {
            s
        } else {
            None
        }),
{
    match s {
        Some(t) => if text::is_blank(t.as_str()) {
            None
        } else {
            Some(t)
        },
        None => None,
    }
}

impl LrclibHit {
    /// The answer has lyrics of some kind.
    pub open spec fn words(self) -> bool {
        has_text(self.synced_lyrics) || has_text(self.plain_lyrics)
    }

    /// The answer has timed lyrics.
    pub open spec fn synced(self) -> bool {
        has_text(self.synced_lyrics)
    }

    /// Whether the answer has lyrics of some kind.
    pub fn has_words(&self) -> (r: bool)
        ensures
            r == self.words(),
            r <==> (self.synced_lyrics is Some && !text::blank(self.synced_lyrics->0@)) || (
            self.plain_lyrics is Some && !text::blank(self.plain_lyrics->0@)),
    {
        says_something(&self.synced_lyrics) || says_something(&self.plain_lyrics)
    }

    /// Whether the answer has timed lyrics.
    pub fn has_synced(&self) -> (r: bool)
        ensures
            r == self.synced(),
            r <==> self.synced_lyrics is Some && !text::blank(self.synced_lyrics->0@),
    {
        says_something(&self.synced_lyrics)
    }

    /// The lyrics of the answer; blank ones are none.
    pub fn into_fetched(self) -> (r: Fetched)
        ensures
            r == self.fetched(),
            self.synced_lyrics is Some && !text::blank(self.synced_lyrics->0@) ==> r.synced
                == self.synced_lyrics,
            self.synced_lyrics is None || text::blank(self.synced_lyrics->0@) ==> r.synced is None,
            self.plain_lyrics is Some && !text::blank(self.plain_lyrics->0@) ==> r.plain
                == self.plain_lyrics,
            self.plain_lyrics is None || text::blank(self.plain_lyrics->0@) ==> r.plain is None,
    {
        Fetched { synced: non_blank(self.synced_lyrics), plain: non_blank(self.plain_lyrics) }
    }

    /// The lyrics of the answer; blank ones are none.
    pub open spec fn fetched(self) -> Fetched {
        Fetched {
            synced: if has_text(self.synced_lyrics) {
                self.synced_lyrics
            } else {
                None
            },
            plain: if has_text(self.plain_lyrics) {
                self.plain_lyrics
            } else {
                None
            },
        }
    }

    /// Whether this answer is strictly better: timed before untimed, then the
    /// closer length.
    pub open spec fn beats(self, other: LrclibHit) -> bool {
        (self.synced() && !other.synced()) || (self.synced() == other.synced() && self.distance
            < other.distance)
    }
}

/// The lyrics of a track, as far as there are any.
#[derive(Debug, PartialEq, Eq)]
pub struct Fetched {
    pub synced: Option<String>,
    pub plain: Option<String>,
}

impl Default for Fetched {
    fn default() -> (r: Self)
        ensures
            r.synced is None,
            r.plain is None,
    {
        Fetched { synced: None, plain: None }
    }
}

/// Whether answer `i` is the one to take: none with words beats it, and it comes
/// before those that are as good.
pub open spec fn is_best(hits: Seq<LrclibHit>, i: int) -> bool {
    &&& 0 <= i < hits.len()
    &&& hits[i].words()
    &&& forall|j: int|
        0 <= j < hits.len() && (#[trigger] hits[j]).words() ==> !hits[j].beats(hits[i])
    &&& forall|j: int|
        0 <= j < i && (#[trigger] hits[j]).words() ==> hits[i].beats(hits[j])
}

/// Where the best answer stands.
fn best_at(hits: &Vec<LrclibHit>) -> (r: Option<usize>)
    ensures
        match r {
            Some(i) => is_best(hits@, i as int),
            None => forall|j: int| 0 <= j < hits@.len() ==> !(#[trigger] hits@[j]).words(),
        },
{
    let mut best: Option<usize> = None;
    let mut i: usize = 0;
    while i < hits.len()
        invariant
            i <= hits@.len(),
            match best {
                Some(b) => b < i && is_best(hits@.take(i as int), b as int),
                None => forall|j: int| 0 <= j < i ==> !(#[trigger] hits@[j]).words(),
            },
        decreases hits@.len() - i,
    {
        let ghost before = hits@.take(i as int);
        let ghost after = hits@.take(i + 1);
        assert(after =~= before.push(hits@[i as int]));
        if hits[i].has_words() {
            let better = match best {
                Some(b) => {
                    let s: bool = hits[i].has_synced();
                    let t: bool = hits[b].has_synced();
                    (s && !t) || (s == t && hits[i].distance < hits[b].distance)
                },
                None => true,
            };
            if better {
                proof {
                    if best is Some {
                        let b = best->0 as int;
                        assert forall|j: int| 0 <= j < i && (
                        #[trigger] after[j]).words() implies hits@[i as int].beats(after[j]) by {
                            assert(after[j] == before[j]);
                            assert(!before[j].beats(before[b]));
                            assert(before[b] == hits@[b]);
                        }
                    } else {
                        assert forall|j: int| 0 <= j < i implies !(#[trigger] after[j]).words() by {
                            assert(after[j] == hits@[j]);
                        }
                    }
                }
                best = Some(i);
                assert(is_best(after, i as int));
            } else {
                proof {
                    let b = best->0 as int;
                    assert forall|j: int| 0 <= j < after.len() && (
                    #[trigger] after[j]).words() implies !after[j].beats(after[b]) by {
                        if j < i {
                            assert(after[j] == before[j]);
                        }
                    }
                    assert forall|j: int| 0 <= j < b && (
                    #[trigger] after[j]).words() implies after[b].beats(after[j]) by {
                        assert(after[j] == before[j]);
                    }
                    assert(is_best(after, b));
                }
            }
        } else {
            proof {
                if best is Some {
                    let b = best->0 as int;
                    assert forall|j: int| 0 <= j < after.len() && (
                    #[trigger] after[j]).words() implies !after[j].beats(after[b]) by {
                        assert(j < i);
                        assert(after[j] == before[j]);
                    }
                    assert forall|j: int| 0 <= j < b && (
                    #[trigger] after[j]).words() implies after[b].beats(after[j]) by {
                        assert(after[j] == before[j]);
                    }
                    assert(is_best(after, b));
                }
            }
        }
        i += 1;
    }
    assert(hits@.take(i as int) =~= hits@);
    best
}

/// The best answer of a search, if any has words: timed lyrics before a closer
/// length, the first of equals.
pub fn pick_best(hits: Vec<LrclibHit>) -> (r: Option<LrclibHit>)
    ensures
        match r {
            Some(h) => exists|i: int| is_best(hits@, i) && h == hits@[i],
            None => forall|j: int| 0 <= j < hits@.len() ==> !(#[trigger] hits@[j]).words(),
        },
{
    match best_at(&hits) {
        Some(i) => {
            let h = &hits[i];
            Some(
                LrclibHit {
                    distance: h.distance,
                    plain_lyrics: text::copy_opt(&h.plain_lyrics),
                    synced_lyrics: text::copy_opt(&h.synced_lyrics),
                },
            )
        },
        None => None,
    }
}

/// The best hit has words; it is synced if any with words is; and among those as
/// good as it, none is nearer in length, nor as near and earlier.
pub proof fn lemma_best_hit(hits: Seq<LrclibHit>, i: int)
    requires
        is_best(hits, i),
    ensures
        0 <= i < hits.len(),
        has_text(hits[i].synced_lyrics) || has_text(hits[i].plain_lyrics),
        forall|j: int|
            0 <= j < hits.len() && has_text((#[trigger] hits[j]).synced_lyrics) ==> has_text(
                hits[i].synced_lyrics,
            ),
        forall|j: int|
            0 <= j < hits.len() && (has_text((#[trigger] hits[j]).synced_lyrics) || has_text(
                hits[j].plain_lyrics,
            )) && has_text(hits[j].synced_lyrics) == has_text(hits[i].synced_lyrics)
                ==> hits[i].distance <= hits[j].distance,
        forall|j: int|
            0 <= j < i && (has_text((#[trigger] hits[j]).synced_lyrics) || has_text(
                hits[j].plain_lyrics,
            )) && has_text(hits[j].synced_lyrics) == has_text(hits[i].synced_lyrics)
                ==> hits[i].distance < hits[j].distance,
{
    assert forall|j: int|
        0 <= j < hits.len() && has_text((#[trigger] hits[j]).synced_lyrics) implies has_text(
        hits[i].synced_lyrics,
    ) by {
        assert(hits[j].words());
    }
    assert forall|j: int|
        0 <= j < hits.len() && (has_text((#[trigger] hits[j]).synced_lyrics) || has_text(
            hits[j].plain_lyrics,
        )) && has_text(hits[j].synced_lyrics) == has_text(hits[i].synced_lyrics) implies hits[i].distance
        <= hits[j].distance by {
        assert(hits[j].words());
    }
    assert forall|j: int|
        0 <= j < i && (has_text((#[trigger] hits[j]).synced_lyrics) || has_text(
            hits[j].plain_lyrics,
        )) && has_text(hits[j].synced_lyrics) == has_text(hits[i].synced_lyrics) implies hits[i].distance
        < hits[j].distance by {
        assert(hits[j].words());
    }
}

/// What is kept of a lookup: the exact answer where there is one, else the best
/// one found; a text that is blank is none.
pub proof fn lemma_what_is_kept(hit: LrclibHit, s: Option<String>)
    ensures
        has_text(s) <==> s is Some && !text::blank(s->0@),
        has_text(hit.synced_lyrics) ==> hit.fetched().synced == hit.synced_lyrics,
        !has_text(hit.synced_lyrics) ==> hit.fetched().synced is None,
        has_text(hit.plain_lyrics) ==> hit.fetched().plain == hit.plain_lyrics,
        !has_text(hit.plain_lyrics) ==> hit.fetched().plain is None,
{
}

/// There is one best answer at most.
pub proof fn lemma_best_is_unique(hits: Seq<LrclibHit>, i: int, j: int)
    requires
        is_best(hits, i),
        is_best(hits, j),
    ensures
        i == j,
{
    if i < j {
        assert(hits[j].beats(hits[i]));
    }
    if j < i {
        assert(hits[i].beats(hits[j]));
    }
}

/// What an exact answer comes to: one without words is none.
pub fn exact_hit(hit: LrclibHit) -> (r: Option<LrclibHit>)
    ensures
        r == (if hit.words() {
            Some(hit)
        } else {
            None
        }),
{
    if hit.has_words() {
        Some(hit)
    } else {
        None
    }
}

/// What to do with the status of a reply.
#[derive(Debug, PartialEq, Eq)]
pub enum LookupReply {
    /// Read the answer.
    Read,
    /// The track is not known there.
    Missing,
    /// The service failed.
    Failed(String),
}

/// Judges the status of a reply to a request of kind `what`; `shown` is the
/// status as it is shown.
pub fn judge_reply(what: &str, status: u16, shown: &str) -> (r: LookupReply)
    ensures
        if status == 404 {
            r == LookupReply::Missing
        } else if 200 <= status <= 299 {
            r == LookupReply::Read
        } else {
            r is Failed && r->Failed_0@ == "lrclib "@ + what@ + " "@ + shown@
        },
{
    if status == 404 {
        return LookupReply::Missing;
    }
    if 200 <= status && status <= 299 {
        return LookupReply::Read;
    }
    let mut out = "lrclib ".to_string();
    out.append(what);
    out.append(" ");
    out.append(shown);
    LookupReply::Failed(out)
}

/// The parameters of an exact lookup. The service counts in seconds.
pub fn exact_query(song: &SongLookup) -> (r: Vec<(String, String)>)
    ensures
        outside::pair_views(r@) == seq![
            ("artist_name"@, song.artist_name@),
            ("track_name"@, song.name@),
            ("album_name"@, song.album_name@),
            ("duration"@, text::decimal((song.duration_ms / 1000) as nat)),
        ],
{
    let r = vec![
        ("artist_name".to_string(), song.artist_name.clone()),
        ("track_name".to_string(), song.name.clone()),
        ("album_name".to_string(), song.album_name.clone()),
        ("duration".to_string(), text::show(song.duration_ms / 1000)),
    ];
    assert(outside::pair_views(r@) =~= seq![
        ("artist_name"@, song.artist_name@),
        ("track_name"@, song.name@),
        ("album_name"@, song.album_name@),
        ("duration"@, text::decimal((song.duration_ms / 1000) as nat)),
    ]);
    r
}

/// The parameters of a search.
pub fn search_query(song: &SongLookup) -> (r: Vec<(String, String)>)
    ensures
        outside::pair_views(r@) == seq![
            ("artist_name"@, song.artist_name@),
            ("track_name"@, song.name@),
        ],
{
    let r = vec![
        ("artist_name".to_string(), song.artist_name.clone()),
        ("track_name".to_string(), song.name.clone()),
    ];
    assert(outside::pair_views(r@) =~= seq![
        ("artist_name"@, song.artist_name@),
        ("track_name"@, song.name@),
    ]);
    r
}

/// What a lookup comes to: the exact answer if there is one, else the best of
/// the search, else nothing.
pub fn settle(exact: Option<LrclibHit>, found: Option<LrclibHit>) -> (r: Fetched)
    ensures
        r == (if exact is Some {
            exact->0.fetched()
        } else if found is Some {
            found->0.fetched()
        } else {
            Fetched { synced: None, plain: None }
        }),
{
    match exact {
        Some(h) => h.into_fetched(),
        None => match found {
            Some(h) => h.into_fetched(),
            None => Fetched::default(),
        },
    }
}

/// One digit behind the dot counts tenths of a second, two count hundredths, three
/// count thousandths.
pub proof fn lemma_fractions(d: Seq<char>)
    requires
        d.len() > 0,
        text::value(d) <= u64::MAX,
    ensures
        d.len() == 1 ==> fraction(d) == Some((100 * text::value(d)) as nat),
        d.len() == 2 ==> fraction(d) == Some((10 * text::value(d)) as nat),
        d.len() == 3 && text::value(d) < 1000 ==> fraction(d) == Some(text::value(d)),
        fraction(Seq::empty()) is None,
{
}

/// A line of a file gives one line for each of its times, in turn, and each of them
/// says what stands behind the times.
pub proof fn lemma_a_line_for_each_time(raw: Seq<char>, lines: Seq<Line>, i: int)
    requires
        !raw.contains('\n'),
        is_sorted_from(lines, timed(raw)),
    ensures
        ({
            let s = text::trimmed(raw);
            &&& lines.len() == line_stamps(s).len()
            &&& 0 <= i < lines.len() ==> lines[i].text@ == text::trimmed(line_rest(s))
            &&& 0 <= i < lines.len() ==> timed(raw)[i].at_ms == line_stamps(s)[i]
        }),
{
    text::lemma_index_of(raw, '\n');
    assert(text::split(raw, '\n') =~= seq![raw]);
    let entries = timed(raw);
    assert(seq![raw].drop_last() =~= Seq::empty());
    assert(timed_lines(seq![raw].drop_last()) =~= Seq::empty());
    assert(entries =~= timed_line(raw));
    let p = choose|p: Seq<int>| #[trigger]
        order::is_stable_order(times(entries), p) && forall|k: int|
            0 <= k < lines.len() ==> holds(#[trigger] lines[k], entries[p[k]]);
    if 0 <= i < lines.len() {
        assert(holds(lines[i], entries[p[i]]));
    }
}

} // verus!
