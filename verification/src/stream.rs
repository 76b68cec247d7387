//! Playing while downloading: what has landed, what a reader may have of it, and
//! which cached files go when there are too many.
//!
//! The bookkeeping stands here, apart from the connection and the disk.

use vstd::prelude::*;
use crate::order;
use crate::outside;
use crate::text;

verus! {

// ── what has landed ────────────────────────────────────────────────────

/// How much of a track has landed on disk, and whether the fetch died.
///
/// What has landed is always a prefix from byte zero: a seek past it gives up
/// caching rather than tracking the gap.
#[derive(Debug)]
pub struct CacheState {
    available: u64,
    total: Option<u64>,
    error: Option<String>,
}

/// The content of a [`CacheState`].
pub struct Landed {
    pub available: u64,
    pub total: Option<u64>,
    pub error: Option<String>,
}

impl Landed {
    /// The whole length is known and has arrived. Without a length nothing is
    /// ever complete, so readers keep waiting rather than cutting a track short.
    pub open spec fn complete(self) -> bool {
        self.total is Some && self.available >= self.total->0
    }

    /// The same, with a failure noted unless one was noted before.
    pub open spec fn failed(self, reason: String) -> Landed {
        if self.error is None {
            Landed { error: Some(reason), ..self }
        } else {
            self
        }
    }
}

impl View for CacheState {
    type V = Landed;

    closed spec fn view(&self) -> Landed {
        Landed { available: self.available, total: self.total, error: self.error }
    }
}

impl Default for CacheState {
    fn default() -> (r: Self)
        ensures
            r@ == (Landed { available: 0, total: None, error: None }),
    {
        CacheState { available: 0, total: None, error: None }
    }
}

impl CacheState {
    /// Nothing has landed.
    pub fn new() -> (r: Self)
        ensures
            r@ == (Landed { available: 0, total: None, error: None }),
    {
        CacheState { available: 0, total: None, error: None }
    }

    /// How many bytes have landed.
    pub fn available(&self) -> (r: u64)
        ensures
            r == self@.available,
    {
        self.available
    }

    /// How many bytes there will be, where that is known.
    pub fn total(&self) -> (r: Option<u64>)
        ensures
            r == self@.total,
    {
        self.total
    }

    /// Whether everything has landed.
    pub fn is_complete(&self) -> (r: bool)
        ensures
            r == self@.complete(),
    {
        match self.total {
            Some(t) => self.available >= t,
            None => false,
        }
    }

    /// More bytes landed.
    pub fn note_written(&mut self, n: u64)
        requires
            old(self)@.available + n <= u64::MAX,
        ensures
            final(self)@ == (Landed { available: (old(self)@.available + n) as u64, ..old(self)@ }),
    {
        self.available = self.available + n;
    }

    /// The length became known.
    pub fn set_total(&mut self, total: Option<u64>)
        ensures
            final(self)@ == (Landed { total, ..old(self)@ }),
    {
        self.total = total;
    }

    /// Notes a failure. The first one stays: it is the useful one.
    pub fn fail(&mut self, reason: String)
        ensures
            final(self)@ == old(self)@.failed(reason),
    {
        if self.error.is_none() {
            self.error = Some(reason);
        }
    }

    /// The failure, if there was one.
    pub fn error(&self) -> (r: Option<&str>)
        ensures
            match r {
                Some(e) => self@.error is Some && e@ == self@.error->0@,
                None => self@.error is None,
            },
    {
        match &self.error {
            Some(e) => Some(e.as_str()),
            None => None,
        }
    }
}

/// Why a read got nothing.
#[derive(Debug, PartialEq, Eq)]
pub enum StreamError {
    Fetch(String),
    Timeout,
    Io(String),
}

impl StreamError {
    /// The message shown for this error.
    pub open spec fn text(self) -> Seq<char> {
        match self {
            StreamError::Fetch(e) => e@,
            StreamError::Timeout => "timed out waiting for audio data"@,
            StreamError::Io(e) => "io: "@ + e@,
        }
    }

    /// The message shown for this error.
    pub fn message(&self) -> (r: String)
        ensures
            r@ == self.text(),
            r@ == (match *self {
                StreamError::Fetch(e) => e@,
                StreamError::Timeout => "timed out waiting for audio data"@,
                StreamError::Io(e) => "io: "@ + e@,
            }),
    {
        match self {
            StreamError::Fetch(e) => e.clone(),
            StreamError::Timeout => "timed out waiting for audio data".to_string(),
            StreamError::Io(e) => text::concat("io: ", e.as_str()),
        }
    }
}

/// When a stream is complete, and what it fails with: all of it has come, and the
/// first failure stays.
pub proof fn lemma_landed(l: Landed, reason: String)
    ensures
        l.complete() <==> l.total is Some && l.available >= l.total->0,
        l.error is None ==> l.failed(reason).error == Some(reason),
        l.error is Some ==> l.failed(reason) == l,
        l.failed(reason).available == l.available,
        l.failed(reason).total == l.total,
{
}

/// Whether a wait for `want` bytes is over, and with what: a failure first, then
/// the bytes or the end of the track, then the deadline. `None` means to keep
/// waiting. A short count at the end of a complete track is the end, no error.
pub fn wait_for(state: &CacheState, want: u64, expired: bool) -> (r: Option<
    Result<u64, StreamError>,
>)
    ensures
        if state@.error is Some {
            &&& r is Some
            &&& r->0 is Err
            &&& r->0->Err_0 is Fetch
            &&& r->0->Err_0->Fetch_0@ == state@.error->0@
        } else if state@.available >= want || state@.complete() {
            r == Some(Ok::<u64, StreamError>(state@.available))
        } else if expired {
            r == Some(Err::<u64, StreamError>(StreamError::Timeout))
        } else {
            r is None
        },
{
    if let Some(e) = state.error() {
        return Some(Err(StreamError::Fetch(e.to_string())));
    }
    if state.available() >= want || state.is_complete() {
        return Some(Ok(state.available()));
    }
    if expired {
        return Some(Err(StreamError::Timeout));
    }
    None
}

/// How long a read waits for bytes before it reports a stall.
pub const READ_TIMEOUT_SECS: u64 = 20;

// ── fetching ───────────────────────────────────────────────────────────

/// The range to ask for when a fetch does not begin at byte zero.
pub fn range_header(from: u64) -> (r: Option<String>)
    ensures
        text::view_of(r) == (if from > 0 {
            Some("bytes="@ + text::decimal(from as nat) + "-"@)
        } else {
            None
        }),
{
    if from == 0 {
        return None;
    }
    let mut out = "bytes=".to_string();
    let n = text::show(from);
    out.append(n.as_str());
    out.append("-");
    Some(out)
}

/// What happens to a fetch.
#[derive(Debug, PartialEq, Eq)]
pub enum FetchEvent {
    /// The server could not be reached.
    Unreachable,
    /// A response came: its status, the status as it is shown, and the length it
    /// announces.
    Response { status: u16, shown: String, length: Option<u64> },
    /// Bytes came and were written.
    Written { len: u64 },
    /// The cache file could not be written.
    WriteFailed(String),
    /// The connection broke.
    Lost,
    /// The response ended.
    Ended,
}

/// Why a response is not worth reading, if it is not.
pub open spec fn refusal(status: u16, shown: Seq<char>) -> Option<Seq<char>> {
    if status == 401 || status == 403 {
        Some("server rejected the login"@)
    } else if !(200 <= status <= 299) {
        Some("server returned "@ + shown)
    } else {
        None
    }
}

/// The failure that an event means, if it means one.
pub open spec fn failure_of(ev: FetchEvent) -> Option<Seq<char>> {
    match ev {
        FetchEvent::Unreachable => Some("server unreachable"@),
        FetchEvent::Response { status, shown, length } => refusal(status, shown@),
        FetchEvent::Written { len } => None,
        FetchEvent::WriteFailed(e) => Some("cache write: "@ + e@),
        FetchEvent::Lost => Some("connection lost"@),
        FetchEvent::Ended => None,
    }
}

/// What each way to fail is called.
pub proof fn lemma_failures(status: u16, shown: Seq<char>, ev: FetchEvent)
    ensures
        status == 401 || status == 403 ==> refusal(status, shown) == Some(
            "server rejected the login"@,
        ),
        200 <= status <= 299 <==> refusal(status, shown) is None,
        !(200 <= status <= 299) && status != 401 && status != 403 ==> refusal(status, shown) == Some(
            "server returned "@ + shown,
        ),
        ev is Unreachable ==> failure_of(ev) == Some("server unreachable"@),
        ev is Lost ==> failure_of(ev) == Some("connection lost"@),
        ev is WriteFailed ==> failure_of(ev) == Some("cache write: "@ + ev->WriteFailed_0@),
        ev is Response ==> failure_of(ev) == refusal(ev->status, ev->shown@),
        ev is Written || ev is Ended ==> failure_of(ev) is None,
{
}

/// Takes note of what happened to a fetch; whether it goes on. A response
/// without a length gets one when it ends, which is what lets a reader recognise
/// the end of the track.
pub fn on_fetch(state: &mut CacheState, ev: FetchEvent) -> (r: bool)
    requires
        ev matches FetchEvent::Written { len } ==> old(state)@.available + len <= u64::MAX,
    ensures
        match failure_of(ev) {
            Some(why) => {
                &&& !r
                &&& final(state)@.available == old(state)@.available
                &&& final(state)@.total == old(state)@.total
                &&& final(state)@.error is Some
                &&& if old(state)@.error is Some {
                    final(state)@.error == old(state)@.error
                } else {
                    final(state)@.error->0@ == why
                }
            },
            None => match ev {
                FetchEvent::Response { status, shown, length } => r && final(state)@ == (Landed {
                    total: length,
                    ..old(state)@
                }),
                FetchEvent::Written { len } => r && final(state)@ == (Landed {
                    available: (old(state)@.available + len) as u64,
                    ..old(state)@
                }),
                _ => !r && final(state)@ == (Landed {
                    total: if old(state)@.total is None {
                        Some(old(state)@.available)
                    } else {
                        old(state)@.total
                    },
                    ..old(state)@
                }),
            },
        },
{
    match ev {
        FetchEvent::Unreachable => {
            state.fail("server unreachable".to_string());
            false
        },
        FetchEvent::Response { status, shown, length } => {
            if status == 401 || status == 403 {
                state.fail("server rejected the login".to_string());
                return false;
            }
            if !(200 <= status && status <= 299) {
                state.fail(text::concat("server returned ", shown.as_str()));
                return false;
            }
            state.set_total(length);
            true
        },
        FetchEvent::Written { len } => {
            state.note_written(len);
            true
        },
        FetchEvent::WriteFailed(e) => {
            state.fail(text::concat("cache write: ", e.as_str()));
            false
        },
        FetchEvent::Lost => {
            state.fail("connection lost".to_string());
            false
        },
        FetchEvent::Ended => {
            if state.total().is_none() {
                let landed: u64 = state.available();
                state.set_total(Some(landed));
            }
            false
        },
    }
}

/// A fetch of unknown length is complete once it has ended, with what landed.
pub proof fn lemma_ended_without_length_is_complete(before: Landed, after: Landed)
    requires
        before.total is None,
        after == (Landed { total: Some(before.available), ..before }),
    ensures
        after.complete(),
{
}

// ── reading ────────────────────────────────────────────────────────────

/// Where a seek is counted from.
#[derive(Debug, Clone, Copy, PartialEq, Eq, Structural)]
pub enum SeekFrom {
    Start(u64),
    Current(i64),
    End(i64),
}

/// `a` moved by `d`, no lower than zero and no higher than fits.
pub open spec fn moved(a: u64, d: i64) -> u64 {
    if a + d < 0 {
        0
    } else if a + d > u64::MAX {
        u64::MAX
    } else {
        (a + d) as u64
    }
}

fn move_by(a: u64, d: i64) -> (r: u64)
    ensures
        r == moved(a, d),
{
    let to: i128 = a as i128 + d as i128;
    if to < 0 {
        0
    } else if to > u64::MAX as i128 {
        u64::MAX
    } else {
        to as u64
    }
}

/// A reader's place in a file that is still being written.
#[derive(Debug)]
pub struct StreamingSource {
    pos: u64,
    abandoned: bool,
}

impl StreamingSource {
    /// Where the next read begins.
    pub closed spec fn at(&self) -> u64 {
        self.pos
    }

    /// Whether a seek has gone past what had landed.
    pub closed spec fn gave_up(&self) -> bool {
        self.abandoned
    }

    /// At the beginning.
    pub fn new() -> (r: Self)
        ensures
            r.at() == 0,
            !r.gave_up(),
    {
        StreamingSource { pos: 0, abandoned: false }
    }

    /// Where the next read begins.
    pub fn position(&self) -> (r: u64)
        ensures
            r == self.at(),
    {
        self.pos
    }

    /// Whether a seek has gone past what had landed; the partial file is then no
    /// faithful copy and must be discarded.
    pub fn caching_abandoned(&self) -> (r: bool)
        ensures
            r == self.gave_up(),
    {
        self.abandoned
    }

    /// How much must have landed before a read of `len` bytes is served in full.
    pub fn wants(&self, len: usize) -> (r: u64)
        requires
            self.at() + len <= u64::MAX,
        ensures
            r == self.at() + len,
    {
        self.pos + len as u64
    }

    /// How many bytes of a buffer of `len` can be filled now that `available`
    /// have landed. Nothing left means the end.
    pub fn can_read(&self, available: u64, len: usize) -> (r: usize)
        ensures
            r == (if available <= self.at() {
                0int
            } else if available - self.at() < len {
                available - self.at()
            } else {
                len as int
            }),
            r <= len,
            r > 0 ==> self.at() + r <= available,
    {
        if available <= self.pos {
            return 0;
        }
        let left: u64 = available - self.pos;
        if left < len as u64 {
            left as usize
        } else {
            len
        }
    }

    /// A read returned `n` bytes.
    pub fn advance(&mut self, n: usize)
        requires
            old(self).at() + n <= u64::MAX,
        ensures
            final(self).at() == old(self).at() + n,
            final(self).gave_up() == old(self).gave_up(),
    {
        self.pos = self.pos + n as u64;
    }

    /// Moves the reader. From the end only where the length is known; a guess
    /// would send a decoder astray. Past what has landed, caching this play is
    /// over.
    pub fn seek(&mut self, from: SeekFrom, total: Option<u64>, available: u64) -> (r: Result<
        u64,
        String,
    >)
        ensures
            if from is End && total is None {
                &&& r is Err
                &&& r->Err_0@ == "cannot seek from end without a known length"@
                &&& *final(self) == *old(self)
            } else {
                let to = match from {
                    SeekFrom::Start(n) => n,
                    SeekFrom::Current(d) => moved(old(self).at(), d),
                    SeekFrom::End(d) => moved(total->0, d),
                };
                &&& r == Ok::<u64, String>(to)
                &&& final(self).at() == to
                &&& final(self).gave_up() == (old(self).gave_up() || to > available)
            },
    {
        let target: u64 = match from {
            SeekFrom::Start(n) => n,
            SeekFrom::Current(d) => move_by(self.pos, d),
            SeekFrom::End(d) => match total {
                Some(t) => move_by(t, d),
                None => {
                    return Err("cannot seek from end without a known length".to_string());
                },
            },
        };
        if target > available {
            self.abandoned = true;
        }
        self.pos = target;
        Ok(target)
    }
}

// ── the cache on disk ──────────────────────────────────────────────────

/// The audio cache's ceiling: 4 GiB.
pub const CACHE_CAP_BYTES: u64 = 4294967296;

/// The name of the cache directory.
pub const CACHE_DIR: &'static str = "audio";

/// Where audio is cached.
pub fn cache_dir(app_data: Option<String>) -> (r: Option<String>)
    ensures
        match r {
            Some(p) => app_data is Some && outside::is_adjoined(app_data->0@, CACHE_DIR@, p@),
            None => app_data is None,
        },
{
    match app_data {
        Some(dir) => {
            proof {
                reveal_strlit("audio");
            }
            Some(outside::path_join(dir.as_str(), CACHE_DIR))
        },
        None => None,
    }
}

/// The name of a track's cache file.
pub open spec fn cache_name(key: Seq<char>) -> Seq<char> {
    outside::sha256_of(key) + ".dat"@
}

/// Where a track is cached.
pub fn cache_path(dir: &str, key: &str) -> (r: String)
    ensures
        outside::is_plain_name(cache_name(key@)),
        outside::is_adjoined(dir@, cache_name(key@), r@),
        outside::is_adjoined(dir@, outside::sha256_of(key@) + ".dat"@, r@),
{
    let digest = outside::sha256_hex(key);
    let name = text::concat(digest.as_str(), ".dat");
    proof {
        reveal_strlit(".dat");
        assert forall|i: int| 0 <= i < name@.len() implies name@[i] != '/' && name@[i] != '\\'
            && name@[i] != ':' by {
            if i < digest@.len() {
                assert(outside::is_hex_lower(digest@[i]));
            } else {
                assert(name@[i] == ".dat"@[i - digest@.len()]);
            }
        }
    }
    outside::path_join(dir, name.as_str())
}

/// Tracks whose digests differ are cached in different files, in every directory.
pub proof fn lemma_cache_paths_differ(
    dir: Seq<char>,
    a: Seq<char>,
    b: Seq<char>,
    pa: Seq<char>,
    pb: Seq<char>,
)
    requires
        outside::sha256_of(a) != outside::sha256_of(b),
        outside::is_adjoined(dir, cache_name(a), pa),
        outside::is_adjoined(dir, cache_name(b), pb),
    ensures
        pa != pb,
{
    if cache_name(a) == cache_name(b) {
        assert(cache_name(a).len() == outside::sha256_of(a).len() + ".dat"@.len());
        assert(cache_name(b).len() == outside::sha256_of(b).len() + ".dat"@.len());
        assert(outside::sha256_of(a) =~= cache_name(a).take(outside::sha256_of(a).len() as int));
        assert(outside::sha256_of(b) =~= cache_name(b).take(outside::sha256_of(b).len() as int));
    }
}

/// A file in the cache.
#[derive(Debug, PartialEq, Eq)]
pub struct CachedFile {
    pub path: String,
    pub size: u64,
    /// When it was last written, counted in nanoseconds from the epoch.
    pub modified: i128,
}

/// The sizes of files taken together.
pub open spec fn total_size(files: Seq<CachedFile>) -> nat
    decreases files.len(),
{
    if files.len() == 0 {
        0
    } else {
        total_size(files.drop_last()) + files.last().size as nat
    }
}

/// When files were last written.
pub open spec fn ages(files: Seq<CachedFile>) -> Seq<int> {
    files.map_values(|f: CachedFile| f.modified as int)
}

/// Making room in the cache, oldest files first.
pub struct Prune {
    files: Vec<CachedFile>,
    order: Vec<usize>,
    at: usize,
    total: u64,
    cap: u64,
    spared: Vec<bool>,
}

impl Prune {
    /// The files, as they were listed.
    pub closed spec fn listed(&self) -> Seq<CachedFile> {
        self.files@
    }

    /// The places of the files, oldest first.
    pub closed spec fn oldest_first(&self) -> Seq<int> {
        order::places(self.order@)
    }

    /// How many of them have been dealt with.
    pub closed spec fn done(&self) -> int {
        self.at as int
    }

    /// How much is left.
    pub closed spec fn left(&self) -> u64 {
        self.total
    }

    /// How much may be left.
    pub closed spec fn limit(&self) -> u64 {
        self.cap
    }

    /// Which of the files, as they were listed, are in use.
    pub closed spec fn spared(&self) -> Seq<bool> {
        self.spared@
    }

    /// The order is one of the listed files, from the oldest to the newest.
    pub open spec fn wf(&self) -> bool {
        &&& self.spared().len() == self.listed().len()
        &&& order::is_stable_order(ages(self.listed()), self.oldest_first())
        &&& 0 <= self.done() <= self.oldest_first().len()
    }

    /// The file at place `k` of the order.
    pub open spec fn file(&self, k: int) -> CachedFile {
        self.listed()[self.oldest_first()[k]]
    }

    /// Whether the file at place `k` of the order is in use.
    pub open spec fn is_spared(&self, k: int) -> bool {
        self.spared()[self.oldest_first()[k]]
    }

    /// What stays as it is while room is made.
    pub open spec fn same_cache(&self, other: &Prune) -> bool {
        &&& self.listed() == other.listed()
        &&& self.oldest_first() == other.oldest_first()
        &&& self.limit() == other.limit()
        &&& self.spared() == other.spared()
    }

    /// Whether `r` is the file to remove next: none while the cache is within its
    /// limit, else the oldest one not dealt with that is not in use.
    pub open spec fn offers(self, r: Option<String>, after: Prune) -> bool {
        &&& after.wf()
        &&& after.same_cache(&self)
        &&& after.left() == self.left()
        &&& after.done() >= self.done()
        &&& if self.left() <= self.limit() {
            r is None && after.done() == self.done()
        } else {
            &&& forall|k: int| self.done() <= k < after.done() ==> #[trigger] self.is_spared(k)
            &&& match r {
                Some(p) => {
                    &&& after.done() < self.oldest_first().len()
                    &&& p@ == self.file(after.done()).path@
                    &&& !self.is_spared(after.done())
                },
                None => after.done() == self.oldest_first().len(),
            }
        }
    }

    /// What is left once the file at place `k` was removed, or could not be.
    pub open spec fn left_without(self, left: u64, k: int, removed: bool) -> u64 {
        if !removed {
            left
        } else if left < self.file(k).size {
            0
        } else {
            (left - self.file(k).size) as u64
        }
    }

    /// Whether `after` is what the file last offered leads to.
    pub open spec fn settles(self, removed: bool, after: Prune) -> bool {
        &&& after.wf()
        &&& after.same_cache(&self)
        &&& after.done() == self.done() + 1
        &&& after.left() == self.left_without(self.left(), self.done(), removed)
    }

    /// The places before `end` whose files are not in use, oldest first.
    pub open spec fn removable(self, end: int) -> Seq<int>
        decreases end,
    {
        if end <= 0 {
            Seq::empty()
        } else if self.is_spared(end - 1) {
            self.removable(end - 1)
        } else {
            self.removable(end - 1).push(end - 1)
        }
    }

    /// How much is left once the first `n` removable files were dealt with.
    pub open spec fn left_after(self, removed: Seq<bool>, n: int) -> u64
        decreases n,
    {
        if n <= 0 {
            self.left()
        } else {
            self.left_without(
                self.left_after(removed, n - 1),
                self.removable(self.oldest_first().len() as int)[n - 1],
                removed[n - 1],
            )
        }
    }

    /// Looks over the cache. `keep` is the file being played: removing it would
    /// pull it out from under the decoder. It is told part by part, so another
    /// way to write its path spares it too.
    pub fn new(files: Vec<CachedFile>, cap: u64, keep: Option<String>) -> (r: Self)
        requires
            total_size(files@) <= u64::MAX,
        ensures
            r.wf(),
            r.listed() == files@,
            r.done() == 0,
            r.left() == total_size(files@),
            r.limit() == cap,
            forall|i: int|
                0 <= i < files@.len() ==> match keep {
                    Some(p) => outside::is_path_equality(
                        p@,
                        files@[i].path@,
                        #[trigger] r.spared()[i],
                    ),
                    None => !r.spared()[i],
                },
    {
        let mut spared: Vec<bool> = Vec::new();
        let mut i: usize = 0;
        while i < files.len()
            invariant
                i <= files@.len(),
                spared@.len() == i,
                forall|k: int|
                    0 <= k < i ==> match keep {
                        Some(p) => outside::is_path_equality(
                            p@,
                            files@[k].path@,
                            #[trigger] spared@[k],
                        ),
                        None => !spared@[k],
                    },
            decreases files@.len() - i,
        {
            let in_use: bool = match &keep {
                Some(p) => outside::same_path(p.as_str(), files[i].path.as_str()),
                None => false,
            };
            spared.push(in_use);
            i += 1;
        }
        Prune::sparing(files, cap, spared)
    }

    /// Looks over the cache, of which these files are in use.
    pub fn sparing(files: Vec<CachedFile>, cap: u64, spared: Vec<bool>) -> (r: Self)
        requires
            total_size(files@) <= u64::MAX,
            spared@.len() == files@.len(),
        ensures
            r.wf(),
            r.listed() == files@,
            r.done() == 0,
            r.left() == total_size(files@),
            r.limit() == cap,
            r.spared() == spared@,
    {
        let mut keys: Vec<i128> = Vec::new();
        let mut total: u64 = 0;
        let mut i: usize = 0;
        assert(files@.take(0) =~= Seq::empty());
        while i < files.len()
            invariant
                total_size(files@) <= u64::MAX,
                i <= files@.len(),
                keys@.len() == i,
                forall|k: int| 0 <= k < i ==> keys@[k] == (#[trigger] files@[k]).modified,
                total == total_size(files@.take(i as int)),
            decreases files@.len() - i,
        {
            proof {
                assert(files@.take(i + 1).drop_last() =~= files@.take(i as int));
                assert(files@.take(i + 1).last() == files@[i as int]);
                lemma_total_prefix(files@, i + 1);
            }
            keys.push(files[i].modified);
            total = total + files[i].size;
            i += 1;
        }
        assert(files@.take(i as int) =~= files@);
        let ord = order::stable_order(&keys);
        assert(order::ints(keys@) =~= ages(files@));
        Prune { files, order: ord, at: 0, total, cap, spared }
    }

    /// The next file to remove: none while the cache is within its limit, else
    /// the oldest one not dealt with that is not in use.
    pub fn next(&mut self) -> (r: Option<String>)
        requires
            old(self).wf(),
        ensures
            old(self).offers(r, *final(self)),
            old(self).left() <= old(self).limit() ==> r is None,
            r is Some ==> final(self).done() < final(self).oldest_first().len() && r->0@ == final(self).listed()[final(self).oldest_first()[final(self).done()]].path@ && !final(self).spared()[final(self).oldest_first()[final(self).done()]],
            old(self).left() > old(self).limit() && r is None ==> final(self).done() == final(self).oldest_first().len(),
            final(self).left() == old(self).left(),
            final(self).listed() == old(self).listed(),
    {
        if self.total <= self.cap {
            return None;
        }
        let ghost start = self.at as int;
        let ghost before = *self;
        while self.at < self.order.len()
            invariant
                before == *old(self),
                start == before.done(),
                self.wf(),
                self.listed() == before.listed(),
                self.oldest_first() == before.oldest_first(),
                self.left() == before.left(),
                self.limit() == before.limit(),
                self.spared() == before.spared(),
                before.left() > before.limit(),
                start <= self.at,
                forall|k: int| start <= k < self.at ==> #[trigger] before.is_spared(k),
            decreases self.order@.len() - self.at,
        {
            let k: usize = self.at;
            assert(self.oldest_first()[k as int] == self.order@[k as int]);
            assert(self.oldest_first()[k as int] < ages(self.listed()).len());
            let f = &self.files[self.order[k]];
            assert(*f == before.file(k as int));
            if !self.spared[self.order[k]] {
                return Some(f.path.clone());
            }
            self.at = k + 1;
        }
        None
    }

    /// The file last offered was removed, or could not be. Only what is gone
    /// makes room.
    pub fn on_removed(&mut self, removed: bool)
        requires
            old(self).wf(),
            old(self).done() < old(self).oldest_first().len(),
        ensures
            old(self).settles(removed, *final(self)),
            final(self).done() == old(self).done() + 1,
            !removed ==> final(self).left() == old(self).left(),
            removed && old(self).left() >= old(self).listed()[old(self).oldest_first()[old(
                self,
            ).done()]].size ==> final(self).left() == old(self).left() - old(self).listed()[old(
                self,
            ).oldest_first()[old(self).done()]].size,
            final(self).listed() == old(self).listed(),
    {
        let k: usize = self.at;
        assert(k < self.order.len());
        assert(self.oldest_first()[k as int] == self.order@[k as int]);
        assert(self.oldest_first()[k as int] < ages(self.listed()).len());
        if removed {
            let size: u64 = self.files[self.order[k]].size;
            self.total = self.total.saturating_sub(size);
        }
        self.at = k + 1;
    }
}

/// A run of making room: `states[i]` offers file `i`, which leads to `offered[i]`
/// and, removed or not, to the next state. The last state has nothing to offer.
pub open spec fn is_prune_run(
    states: Seq<Prune>,
    files: Seq<String>,
    offered: Seq<Prune>,
    removed: Seq<bool>,
    end: Prune,
) -> bool {
    &&& states.len() == files.len() + 1
    &&& offered.len() == files.len()
    &&& removed.len() == files.len()
    &&& states[0].wf()
    &&& states[0].done() == 0
    &&& forall|i: int|
        0 <= i < files.len() ==> states[i].offers(Some(#[trigger] files[i]), offered[i])
            && offered[i].settles(removed[i], states[i + 1])
    &&& states.last().offers(None, end)
}

/// What a run removes is the shortest list, oldest first, of files not in use that
/// brings the cache within its limit, or all of them. A file that could not be
/// removed makes no room.
#[verifier::spinoff_prover]
#[verifier::rlimit(60)]
pub proof fn lemma_prune_takes_the_oldest(
    states: Seq<Prune>,
    files: Seq<String>,
    offered: Seq<Prune>,
    removed: Seq<bool>,
    end: Prune,
)
    requires
        is_prune_run(states, files, offered, removed, end),
    ensures
        ({
            let start = states[0];
            let all = start.removable(start.oldest_first().len() as int);
            &&& files.len() <= all.len()
            &&& forall|i: int|
                0 <= i < files.len() ==> (#[trigger] files[i])@ == start.file(all[i]).path@
                    && start.left_after(removed, i) > start.limit()
            &&& files.len() == all.len() || start.left_after(removed, files.len() as int)
                <= start.limit()
        }),
{
    let start = states[0];
    let n = start.oldest_first().len() as int;
    let all = start.removable(n);
    let m = files.len() as int;
    lemma_prune_progress(states, files, offered, removed, end, m);
    let last = states.last();
    lemma_removable_prefix(start, last.done(), n);
    assert forall|i: int| 0 <= i < m implies (#[trigger] files[i])@ == start.file(all[i]).path@
        && start.left_after(removed, i) > start.limit() by {
        lemma_prune_offer(states, files, offered, removed, end, i);
    }
    if last.left() > last.limit() {
        lemma_removable_spared(start, last, n);
    }
}

/// The file that a run offers `i` files into it.
#[verifier::spinoff_prover]
#[verifier::rlimit(60)]
proof fn lemma_prune_offer(
    states: Seq<Prune>,
    files: Seq<String>,
    offered: Seq<Prune>,
    removed: Seq<bool>,
    end: Prune,
    i: int,
)
    requires
        is_prune_run(states, files, offered, removed, end),
        0 <= i < files.len(),
    ensures
        ({
            let start = states[0];
            let all = start.removable(start.oldest_first().len() as int);
            files[i]@ == start.file(all[i]).path@ && start.left_after(removed, i) > start.limit()
        }),
{
    let start = states[0];
    let n = start.oldest_first().len() as int;
    lemma_prune_progress(states, files, offered, removed, end, i);
    let at = offered[i].done();
    assert(states[i].offers(Some(files[i]), offered[i]));
    lemma_removable_spared(start, states[i], at);
    lemma_removable_prefix(start, at + 1, n);
    assert(!start.is_spared(at));
    assert(start.removable(at + 1) == start.removable(at).push(at));
    assert(start.removable(at + 1)[i] == at);
}

/// Where a run stands after `i` files.
proof fn lemma_prune_progress(
    states: Seq<Prune>,
    files: Seq<String>,
    offered: Seq<Prune>,
    removed: Seq<bool>,
    end: Prune,
    i: int,
)
    requires
        is_prune_run(states, files, offered, removed, end),
        0 <= i <= files.len(),
    ensures
        states[i].wf(),
        states[i].same_cache(&states[0]),
        states[0].removable(states[i].done()).len() == i,
        states[i].left() == states[0].left_after(removed, i),
    decreases i,
{
    if i > 0 {
        lemma_prune_progress(states, files, offered, removed, end, i - 1);
        let start = states[0];
        let was = states[i - 1];
        let o = offered[i - 1];
        assert(was.offers(Some(files[i - 1]), o));
        assert(o.settles(removed[i - 1], states[i - 1 + 1]));
        let at = o.done();
        lemma_removable_spared(start, was, at);
        assert(!start.is_spared(at));
        assert(start.removable(at + 1) == start.removable(at).push(at));
        let n = start.oldest_first().len() as int;
        lemma_removable_prefix(start, at + 1, n);
        assert(start.removable(at + 1)[i - 1] == at);
        assert(start.removable(n)[i - 1] == at);
        assert(o.file(at) == start.file(at));
    }
}

/// Places in use add nothing.
proof fn lemma_removable_spared(start: Prune, p: Prune, to: int)
    requires
        p.same_cache(&start),
        0 <= p.done() <= to,
        forall|k: int| p.done() <= k < to ==> #[trigger] p.is_spared(k),
    ensures
        start.removable(to) == start.removable(p.done()),
    decreases to - p.done(),
{
    if p.done() < to {
        assert(p.is_spared(to - 1));
        lemma_removable_spared(start, p, to - 1);
    }
}

/// What can be removed early on comes first of all that can.
proof fn lemma_removable_prefix(p: Prune, from: int, to: int)
    requires
        0 <= from <= to,
    ensures
        p.removable(from).len() <= p.removable(to).len(),
        forall|i: int|
            0 <= i < p.removable(from).len() ==> #[trigger] p.removable(from)[i] == p.removable(
                to,
            )[i],
    decreases to - from,
{
    if from < to {
        lemma_removable_prefix(p, from, to - 1);
    }
}

proof fn lemma_total_prefix(files: Seq<CachedFile>, i: int)
    requires
        0 <= i <= files.len(),
    ensures
        total_size(files.take(i)) <= total_size(files),
    decreases files.len() - i,
{
    if i < files.len() {
        lemma_total_prefix(files, i + 1);
        assert(files.take(i + 1).drop_last() =~= files.take(i));
    } else {
        assert(files.take(i) =~= files);
    }
}

/// A move from a place goes as far as it says, and stops at the start and at the
/// last place there is.
pub proof fn lemma_moved(a: u64, d: i64)
    ensures
        0 <= a + d <= u64::MAX ==> moved(a, d) == a + d,
        a + d < 0 ==> moved(a, d) == 0,
        a + d > u64::MAX ==> moved(a, d) == u64::MAX,
{
}

/// What files take together grows with each by its size.
pub proof fn lemma_total_size(files: Seq<CachedFile>, f: CachedFile)
    ensures
        total_size(Seq::empty()) == 0,
        total_size(files.push(f)) == total_size(files) + f.size,
{
    assert(files.push(f).drop_last() =~= files);
}

/// A file that was removed takes its size with it; one that was not leaves the
/// cache as large as it was.
pub proof fn lemma_what_is_left(p: Prune, left: u64, k: int)
    ensures
        p.left_without(left, k, false) == left,
        left >= p.file(k).size ==> p.left_without(left, k, true) == left - p.file(k).size,
        left < p.file(k).size ==> p.left_without(left, k, true) == 0,
{
}

/// Files are ordered by when they were last changed.
pub proof fn lemma_ages(files: Seq<CachedFile>, i: int)
    requires
        0 <= i < files.len(),
    ensures
        ages(files).len() == files.len(),
        ages(files)[i] == files[i].modified,
{
}

/// The cache holds four gigabytes, and a read waits for twenty seconds.
pub proof fn lemma_limits()
    ensures
        CACHE_CAP_BYTES == 4 * 1024 * 1024 * 1024,
        READ_TIMEOUT_SECS == 20,
{
}

} // verus!
