use capsule::db::SongLookup;
use capsule::lyrics::{
    active_line, exact_hit, exact_query, judge_reply, parse_lrc, parse_stamp, pick_best,
    search_query, settle, Fetched, Line, LookupReply, LrclibHit,
};

#[test]
fn parses_timestamps_at_each_precision() {
    let lines = parse_lrc("[00:01]one\n[00:02.5]two\n[00:03.25]three\n[01:00.500]four");
    assert_eq!(
        lines.iter().map(|l| l.at_ms).collect::<Vec<_>>(),
        vec![1_000, 2_500, 3_250, 60_500]
    );
}

#[test]
fn metadata_tags_are_not_timestamps() {
    let lines = parse_lrc("[ar:D3]\n[ti:Yalan]\n[length:03:20]\n[00:10.00]real line");
    assert_eq!(lines, vec![Line { at_ms: 10_000, text: "real line".into() }]);
}

#[test]
fn repeated_timestamps_expand_to_one_line_each() {
    let lines = parse_lrc("[00:12.00][01:04.00]chorus");
    assert_eq!(
        lines,
        vec![
            Line { at_ms: 12_000, text: "chorus".into() },
            Line { at_ms: 64_000, text: "chorus".into() },
        ]
    );
}

#[test]
fn empty_timed_lines_are_kept_as_instrumental_gaps() {
    let lines = parse_lrc("[00:05.00]sing\n[00:09.00]\n[00:20.00]again");
    assert_eq!(lines.len(), 3);
    assert_eq!(lines[1].text, "");
}

#[test]
fn output_is_sorted_even_when_the_file_is_not() {
    let lines = parse_lrc("[00:30.00]later\n[00:10.00]earlier");
    assert_eq!(lines[0].text, "earlier");
    assert_eq!(lines[1].text, "later");
}

#[test]
fn lines_of_one_time_keep_the_order_of_the_file() {
    let lines = parse_lrc("[00:30.00]z\n[00:10.00]b\n[00:10.00]a\r\n[00:10.00]c");
    let texts: Vec<&str> = lines.iter().map(|l| l.text.as_str()).collect();
    assert_eq!(texts, vec!["b", "a", "c", "z"]);
}

#[test]
fn two_bodies_joined_by_a_line_break_merge_by_time() {
    let (a, b) = ("[00:30.00]x\n[00:10.00]p", "[00:10.00]q\n\n[00:20.00]r\n");
    let mut apart = parse_lrc(a);
    apart.extend(parse_lrc(b));
    apart.sort_by_key(|l| l.at_ms);
    let joined = parse_lrc(&format!("{a}\n{b}"));
    assert_eq!(joined, apart);
    let texts: Vec<&str> = joined.iter().map(|l| l.text.as_str()).collect();
    assert_eq!(texts, vec!["p", "q", "r", "x"]);
}

#[test]
fn junk_and_untimed_lines_are_dropped() {
    assert!(parse_lrc("no tags here\n[not a stamp]\n[99:99.99]bad seconds").is_empty());
}

#[test]
fn stamps_are_read_part_by_part() {
    assert_eq!(parse_stamp("00:01"), Some(1_000));
    assert_eq!(parse_stamp(" 2 : 3 .4"), Some(123_400));
    assert_eq!(parse_stamp("00:01:50"), Some(1_500), "a colon may mark the fraction");
    assert_eq!(parse_stamp("00:01.2345"), Some(1_345), "only the last three digits count");
    assert_eq!(parse_stamp("00:01.5x"), Some(1_500), "what follows the digits is ignored");
    assert_eq!(parse_stamp("00:01."), None);
    assert_eq!(parse_stamp("00:60"), None);
    assert_eq!(parse_stamp("0001"), None);
    assert_eq!(parse_stamp("x:01"), None);
    assert_eq!(parse_stamp("+1:+2"), Some(62_000));
    assert_eq!(parse_stamp("18446744073709551615:00"), None);
}

#[test]
fn a_tag_that_is_no_time_ends_the_times() {
    let lines = parse_lrc("[00:01.00][x] words");
    assert_eq!(lines, vec![Line { at_ms: 1_000, text: "[x] words".into() }]);
}

#[test]
fn active_line_tracks_position() {
    let lines = parse_lrc("[00:05.00]a\n[00:10.00]b\n[00:20.00]c");

    assert_eq!(active_line(&lines, 0), None, "intro has no active line");
    assert_eq!(active_line(&lines, 4_999), None);
    assert_eq!(active_line(&lines, 5_000), Some(0), "exact hit");
    assert_eq!(active_line(&lines, 9_999), Some(0));
    assert_eq!(active_line(&lines, 10_000), Some(1));
    assert_eq!(active_line(&lines, 999_999), Some(2), "past the end holds the last");
}

#[test]
fn active_line_takes_the_last_of_equal_times() {
    let lines = parse_lrc("[00:05.00]a\n[00:05.00]b\n[00:05.00]c\n[00:09.00]d");
    assert_eq!(active_line(&lines, 5_000), Some(2));
    assert_eq!(active_line(&lines, 6_000), Some(2));
    assert_eq!(active_line(&lines, 9_000), Some(3));
}

/// How far an answer's length is from the track's, as a number that orders as
/// the distance does.
fn distance(duration: Option<f64>, want_ms: u64) -> u64 {
    let want = want_ms as f64 / 1000.0;
    duration.map_or(f64::MAX, |d| (d - want).abs()).to_bits()
}

fn hit(duration: f64, want_ms: u64, synced: bool, plain: bool) -> LrclibHit {
    LrclibHit {
        distance: distance(Some(duration), want_ms),
        synced_lyrics: synced.then(|| "[00:01.00]x".to_string()),
        plain_lyrics: plain.then(|| "x".to_string()),
    }
}

#[test]
fn best_match_prefers_timed_lyrics_over_a_closer_duration() {
    let picked = pick_best(vec![
        hit(200.0, 200_000, false, true),
        hit(215.0, 200_000, true, false),
    ]);
    assert!(picked.expect("a match").has_synced());
}

#[test]
fn best_match_breaks_ties_on_duration() {
    let picked = pick_best(vec![
        hit(180.0, 272_000, true, true),
        hit(271.0, 272_000, true, true),
        hit(400.0, 272_000, true, true),
    ]);
    assert_eq!(picked.expect("a match").distance, distance(Some(271.0), 272_000));
}

#[test]
fn best_match_ignores_entries_with_no_words() {
    assert!(pick_best(vec![hit(272.0, 272_000, false, false)]).is_none());
    assert!(pick_best(vec![]).is_none());
}

#[test]
fn best_match_tolerates_a_missing_duration() {
    let mut unknown = hit(0.0, 272_000, true, true);
    unknown.distance = distance(None, 272_000);
    let picked = pick_best(vec![unknown, hit(272.0, 272_000, true, true)]);
    assert_eq!(picked.expect("a match").distance, distance(Some(272.0), 272_000));
}

#[test]
fn the_first_of_equal_answers_is_taken() {
    let mut a = hit(272.0, 272_000, true, false);
    a.plain_lyrics = Some("first".into());
    let mut b = hit(272.0, 272_000, true, false);
    b.plain_lyrics = Some("second".into());
    let picked = pick_best(vec![a, b]).expect("a match");
    assert_eq!(picked.plain_lyrics.as_deref(), Some("first"));
}

#[test]
fn active_line_handles_no_lyrics() {
    assert_eq!(active_line(&Vec::new(), 1_000), None);
}

#[test]
fn blank_lyrics_are_none() {
    let h = LrclibHit {
        distance: 0,
        plain_lyrics: Some("  ".into()),
        synced_lyrics: Some("[00:01]x".into()),
    };
    assert_eq!(
        h.into_fetched(),
        Fetched { synced: Some("[00:01]x".into()), plain: None }
    );
    assert_eq!(exact_hit(hit(1.0, 1_000, false, false)), None);
    assert!(exact_hit(hit(1.0, 1_000, false, true)).is_some());
}

#[test]
fn an_exact_answer_wins_over_the_search() {
    let exact = hit(1.0, 1_000, false, true);
    let found = hit(1.0, 1_000, true, false);
    assert_eq!(
        settle(Some(exact), Some(found)),
        Fetched { synced: None, plain: Some("x".into()) }
    );
    assert_eq!(
        settle(None, Some(hit(1.0, 1_000, true, false))),
        Fetched { synced: Some("[00:01.00]x".into()), plain: None }
    );
    assert_eq!(settle(None, None), Fetched::default());
}

#[test]
fn a_missing_track_is_no_failure() {
    assert_eq!(judge_reply("get", 404, "404 Not Found"), LookupReply::Missing);
    assert_eq!(judge_reply("get", 200, "200 OK"), LookupReply::Read);
    assert_eq!(
        judge_reply("search", 503, "503 Service Unavailable"),
        LookupReply::Failed("lrclib search 503 Service Unavailable".into())
    );
}

#[test]
fn lookups_ask_in_seconds() {
    let song = SongLookup {
        name: "Cambaz".into(),
        artist_name: "A".into(),
        album_name: "B".into(),
        duration_ms: 183_999,
    };
    let pairs = exact_query(&song);
    assert_eq!(pairs[3], ("duration".to_string(), "183".to_string()));
    assert_eq!(pairs[1], ("track_name".to_string(), "Cambaz".to_string()));
    assert_eq!(search_query(&song).len(), 2);
}
