use capsule::stream::{
    cache_dir, cache_path, on_fetch, range_header, wait_for, CacheState, CachedFile, FetchEvent,
    Prune, SeekFrom, StreamError, StreamingSource, CACHE_CAP_BYTES,
};

#[test]
fn starts_empty_and_incomplete() {
    let s = CacheState::new();
    assert_eq!(s.available(), 0);
    assert_eq!(s.total(), None);
    assert!(!s.is_complete());
    assert_eq!(s.error(), None);
}

#[test]
fn written_bytes_accumulate() {
    let mut s = CacheState::new();
    s.note_written(1024);
    s.note_written(512);
    assert_eq!(s.available(), 1536);
}

#[test]
fn complete_only_when_available_reaches_total() {
    let mut s = CacheState::new();
    s.set_total(Some(1000));
    s.note_written(999);
    assert!(!s.is_complete(), "one byte short is not complete");
    s.note_written(1);
    assert!(s.is_complete());
}

#[test]
fn unknown_total_is_never_complete() {
    let mut s = CacheState::new();
    s.note_written(10_000);
    assert!(!s.is_complete());
}

#[test]
fn failure_is_recorded_and_sticky() {
    let mut s = CacheState::new();
    s.fail("server unreachable".into());
    assert_eq!(s.error(), Some("server unreachable"));
    s.note_written(10);
    assert_eq!(s.error(), Some("server unreachable"), "a late write must not clear the error");
    s.fail("connection lost".into());
    assert_eq!(s.error(), Some("server unreachable"), "the first failure is the useful one");
}

#[test]
fn returns_immediately_when_bytes_are_already_there() {
    let mut s = CacheState::new();
    s.note_written(500);
    let got = wait_for(&s, 100, false).expect("no need to wait").unwrap();
    assert_eq!(got, 500);
}

#[test]
fn wakes_when_bytes_arrive() {
    let mut s = CacheState::new();
    assert!(wait_for(&s, 1024, false).is_none(), "nothing has landed yet");
    s.note_written(2048);
    let got = wait_for(&s, 1024, false).expect("awake").unwrap();
    assert_eq!(got, 2048, "must observe the bytes the writer added");
}

#[test]
fn returns_short_at_end_of_a_complete_stream() {
    let mut s = CacheState::new();
    s.set_total(Some(100));
    s.note_written(100);
    let got = wait_for(&s, 500, false).expect("complete").unwrap();
    assert_eq!(got, 100);
}

#[test]
fn surfaces_a_fetch_failure_rather_than_hanging() {
    let mut s = CacheState::new();
    assert!(wait_for(&s, 1024, false).is_none());
    s.fail("server unreachable".into());
    match wait_for(&s, 1024, false) {
        Some(Err(StreamError::Fetch(m))) => assert_eq!(m, "server unreachable"),
        other => panic!("expected a fetch error, got {other:?}"),
    }
}

#[test]
fn times_out_instead_of_blocking_forever() {
    let s = CacheState::new();
    assert!(matches!(wait_for(&s, 1024, true), Some(Err(StreamError::Timeout))));
}

#[test]
fn a_failure_is_reported_even_past_the_deadline() {
    let mut s = CacheState::new();
    s.fail("connection lost".into());
    assert_eq!(
        wait_for(&s, 1024, true),
        Some(Err(StreamError::Fetch("connection lost".into())))
    );
}

fn complete(n: u64) -> CacheState {
    let mut s = CacheState::new();
    s.set_total(Some(n));
    s.note_written(n);
    s
}

#[test]
fn reads_bytes_that_have_landed() {
    let file = b"0123456789";
    let s = complete(10);
    let mut src = StreamingSource::new();
    let available = wait_for(&s, src.wants(4), false).unwrap().unwrap();
    let n = src.can_read(available, 4);
    assert_eq!(&file[src.position() as usize..src.position() as usize + n], b"0123");
    src.advance(n);
    assert_eq!(src.position(), 4);
}

#[test]
fn seek_inside_the_prefix_does_not_abandon_caching() {
    let file = b"0123456789";
    let s = complete(10);
    let mut src = StreamingSource::new();
    assert_eq!(src.seek(SeekFrom::Start(6), s.total(), s.available()).unwrap(), 6);
    let n = src.can_read(s.available(), 2);
    assert_eq!(&file[6..6 + n], b"67");
    assert!(!src.caching_abandoned(), "a seek within cached bytes is free");
}

#[test]
fn seek_beyond_the_prefix_abandons_caching() {
    let mut s = CacheState::new();
    s.set_total(Some(1_000_000));
    s.note_written(5);
    let mut src = StreamingSource::new();
    src.seek(SeekFrom::Start(900_000), s.total(), s.available()).unwrap();
    assert!(src.caching_abandoned());
    src.seek(SeekFrom::Start(0), s.total(), s.available()).unwrap();
    assert!(src.caching_abandoned(), "coming back does not repair the file");
}

#[test]
fn seek_from_end_uses_the_known_total() {
    let s = complete(10);
    let mut src = StreamingSource::new();
    assert_eq!(src.seek(SeekFrom::End(-2), s.total(), s.available()).unwrap(), 8);
}

#[test]
fn seek_from_end_without_a_total_is_an_error_not_a_guess() {
    let mut s = CacheState::new();
    s.note_written(10);
    let mut src = StreamingSource::new();
    assert!(src.seek(SeekFrom::End(-2), s.total(), s.available()).is_err());
    assert_eq!(src.position(), 0);
}

#[test]
fn relative_seeks_stop_at_zero() {
    let s = complete(10);
    let mut src = StreamingSource::new();
    src.seek(SeekFrom::Start(4), s.total(), s.available()).unwrap();
    assert_eq!(src.seek(SeekFrom::Current(-9), s.total(), s.available()).unwrap(), 0);
    assert_eq!(src.seek(SeekFrom::Current(3), s.total(), s.available()).unwrap(), 3);
}

#[test]
fn the_end_of_a_complete_track_reads_nothing() {
    let s = complete(10);
    let mut src = StreamingSource::new();
    src.seek(SeekFrom::Start(10), s.total(), s.available()).unwrap();
    assert_eq!(src.can_read(s.available(), 16), 0);
    src.seek(SeekFrom::Start(7), s.total(), s.available()).unwrap();
    assert_eq!(src.can_read(s.available(), 16), 3);
}

#[test]
fn cache_path_is_stable_and_distinct_per_track() {
    let dir = r"C:\cache";
    assert_eq!(cache_path(dir, "tr-1"), cache_path(dir, "tr-1"));
    assert_ne!(cache_path(dir, "tr-1"), cache_path(dir, "tr-2"));
}

#[test]
fn a_track_is_cached_under_its_digest() {
    assert!(cache_path("/c", "abc").ends_with(
        "ba7816bf8f01cfea414140de5dae2223b00361a396177a9cb410ff61f20015ad.dat"
    ));
    assert!(cache_path("/c", "abc").starts_with("/c"));
    assert_eq!(cache_dir(None), None);
    assert!(cache_dir(Some("/data".into())).unwrap().ends_with("audio"));
    assert_eq!(CACHE_CAP_BYTES, 4 * 1024 * 1024 * 1024);
}

fn file(path: &str, size: u64, modified: i128) -> CachedFile {
    CachedFile { path: path.into(), size, modified }
}

fn pruned(files: Vec<CachedFile>, cap: u64, keep: Option<&str>) -> Vec<String> {
    let mut gone = Vec::new();
    let mut p = Prune::new(files, cap, keep.map(|k| k.to_string()));
    while let Some(path) = p.next() {
        gone.push(path);
        p.on_removed(true);
    }
    gone
}

#[test]
fn prune_evicts_oldest_first_and_spares_the_playing_file() {
    let files = vec![
        file("playing.dat", 400, 30),
        file("old.dat", 400, 10),
        file("mid.dat", 400, 20),
    ];
    let gone = pruned(files, 500, Some("playing.dat"));
    assert!(!gone.contains(&"playing.dat".to_string()), "the in-use file must never be evicted");
    assert_eq!(gone, vec!["old.dat", "mid.dat"], "oldest goes first");
}

#[test]
fn the_playing_file_is_told_part_by_part() {
    let files = || vec![file("d/x.dat", 400, 10), file("d/y.dat", 400, 20)];
    assert_eq!(pruned(files(), 0, Some("d/./x.dat")), vec!["d/y.dat"]);
    assert_eq!(pruned(files(), 0, Some("d//y.dat")), vec!["d/x.dat"]);
    assert_eq!(pruned(files(), 0, Some("e/x.dat")), vec!["d/x.dat", "d/y.dat"]);
    let mut p = Prune::sparing(files(), 0, vec![true, false]);
    assert_eq!(p.next().as_deref(), Some("d/y.dat"));
}

#[test]
fn what_goes_is_the_shortest_run_of_the_oldest() {
    let files =
        || vec![file("c", 30, 3), file("a", 10, 1), file("d", 40, 4), file("b", 20, 2)];
    for cap in 0..=100 {
        let gone = pruned(files(), cap, Some("b"));
        let order = ["a", "c", "d"];
        let sizes = [10, 30, 40];
        let mut left = 100;
        let mut want = 0;
        while left > cap && want < 3 {
            left -= sizes[want];
            want += 1;
        }
        assert_eq!(gone, order[..want], "{cap}");
    }
}

#[test]
fn prune_does_nothing_below_the_cap() {
    assert!(pruned(vec![file("a.dat", 100, 1)], 10_000, None).is_empty());
    assert!(pruned(vec![file("a.dat", 100, 1)], 100, None).is_empty());
}

#[test]
fn a_file_that_cannot_be_removed_makes_no_room() {
    let files = vec![file("a", 400, 1), file("b", 400, 2), file("c", 400, 3)];
    let mut p = Prune::new(files, 900, None);
    assert_eq!(p.next().as_deref(), Some("a"));
    p.on_removed(false);
    assert_eq!(p.next().as_deref(), Some("b"));
    p.on_removed(true);
    assert_eq!(p.next(), None, "within the limit again");
}

#[test]
fn a_fetch_failure_surfaces_as_an_io_error() {
    let mut s = CacheState::new();
    s.fail("server unreachable".into());
    let src = StreamingSource::new();
    let got = wait_for(&s, src.wants(4), false).expect("no waiting on a dead fetch");
    assert_eq!(got.unwrap_err().message(), "server unreachable");
}

#[test]
fn fetch_events_become_what_readers_see() {
    let mut s = CacheState::new();
    assert!(on_fetch(
        &mut s,
        FetchEvent::Response { status: 200, shown: "200 OK".into(), length: None }
    ));
    assert!(on_fetch(&mut s, FetchEvent::Written { len: 7 }));
    assert!(!s.is_complete());
    assert!(!on_fetch(&mut s, FetchEvent::Ended));
    assert_eq!(s.total(), Some(7));
    assert!(s.is_complete(), "a response without a length is complete once it ends");
}

#[test]
fn refused_responses_say_why() {
    let refused = |status: u16, shown: &str| {
        let mut s = CacheState::new();
        assert!(!on_fetch(
            &mut s,
            FetchEvent::Response { status, shown: shown.into(), length: Some(3) }
        ));
        assert_eq!(s.total(), None);
        s.error().unwrap().to_string()
    };
    assert_eq!(refused(401, "401 Unauthorized"), "server rejected the login");
    assert_eq!(refused(403, "403 Forbidden"), "server rejected the login");
    assert_eq!(refused(404, "404 Not Found"), "server returned 404 Not Found");

    let mut s = CacheState::new();
    on_fetch(&mut s, FetchEvent::Unreachable);
    assert_eq!(s.error(), Some("server unreachable"));
    let mut s = CacheState::new();
    on_fetch(&mut s, FetchEvent::WriteFailed("disk full".into()));
    assert_eq!(s.error(), Some("cache write: disk full"));
    let mut s = CacheState::new();
    on_fetch(&mut s, FetchEvent::Lost);
    assert_eq!(s.error(), Some("connection lost"));
}

#[test]
fn only_a_later_start_asks_for_a_range() {
    assert_eq!(range_header(0), None);
    assert_eq!(range_header(900_000).as_deref(), Some("bytes=900000-"));
}

#[test]
fn stream_errors_have_messages() {
    assert_eq!(StreamError::Timeout.message(), "timed out waiting for audio data");
    assert_eq!(StreamError::Io("gone".into()).message(), "io: gone");
}
