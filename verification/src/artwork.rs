//! Cover art, cached on disk and served under a scheme of its own.
//!
//! A cover is stored as an address with places for its size, or as a reference
//! that is signed only when it is fetched. What address to ask for, under what
//! name to keep the answer, and what a request means, is decided here.

use vstd::prelude::*;
use vstd::utf8::*;
use crate::db::{Artwork, MAX_ARTWORK};
use crate::outside;
use crate::subsonic;
use crate::text;

verus! {

/// The scheme covers are served under.
pub const SCHEME: &'static str = "artwork";

/// The name of the cache directory.
pub const CACHE_DIR: &'static str = "artwork";

/// Where covers are cached: the override wins unless it is blank, otherwise the
/// data directory.
pub fn cache_dir(override_path: Option<String>, app_data: Option<String>) -> (r: Option<String>)
    ensures
        match r {
            Some(p) => if override_path is Some && !text::blank(override_path->0@) {
                p@ == override_path->0@
            } else {
                app_data is Some && outside::is_adjoined(app_data->0@, CACHE_DIR@, p@)
            },
            None => app_data is None && (override_path is None || text::blank(override_path->0@)),
        },
{
    if let Some(p) = override_path {
        if !text::is_blank(p.as_str()) {
            return Some(p);
        }
    }
    match app_data {
        Some(dir) => {
            proof {
                reveal_strlit("artwork");
            }
            Some(outside::path_join(dir.as_str(), CACHE_DIR))
        },
        None => None,
    }
}

// ── references ─────────────────────────────────────────────────────────

/// Whether a stored cover is a reference to the server's, not an address.
pub open spec fn is_ref(template: Seq<char>) -> bool {
    subsonic::ARTWORK_PREFIX@.is_prefix_of(template)
}

/// Whether a stored cover is a reference to the server's.
pub fn is_subsonic_ref(template: &str) -> (r: bool)
    ensures
        r == is_ref(template@),
        r <==> "subsonic:"@.is_prefix_of(template@),
{
    text::starts_with(template, subsonic::ARTWORK_PREFIX)
}

/// The cover id of a reference.
pub fn subsonic_id(template: &str) -> (r: Option<String>)
    ensures
        match r {
            Some(id) => is_ref(template@) && id@ == template@.skip(
                subsonic::ARTWORK_PREFIX@.len() as int,
            ),
            None => !is_ref(template@),
        },
        r is Some ==> template@ == "subsonic:"@ + r->0@,
        r is None ==> !"subsonic:"@.is_prefix_of(template@),
{
    let r = text::strip_prefix(template, subsonic::ARTWORK_PREFIX);
    assert(r is Some ==> template@ =~= "subsonic:"@ + r->0@);
    r
}

/// A cover id that was stored as a reference is read back from it.
pub proof fn lemma_cover_ref_round_trip(id: String)
    requires
        !text::blank(id@),
    ensures
        subsonic::stored_cover(Some(id)) is Some,
        is_ref(subsonic::stored_cover(Some(id))->0),
        subsonic::stored_cover(Some(id))->0.skip(subsonic::ARTWORK_PREFIX@.len() as int) == id@,
{
    let prefix = subsonic::ARTWORK_PREFIX@;
    let stored = prefix + id@;
    assert(stored.take(prefix.len() as int) =~= prefix);
    assert(stored.skip(prefix.len() as int) =~= id@);
}

// ── sizes ──────────────────────────────────────────────────────────────

/// Whether `file` holds a size, such as `300x300`, from `s` to `t`: a whole run
/// of digits, an `x`, and another whole run of digits.
pub open spec fn size_at(file: Seq<char>, s: int, t: int) -> bool {
    exists|e: int| size_split(file, s, e, t)
}

/// The same, with the `x` at `e`.
pub open spec fn size_split(file: Seq<char>, s: int, e: int, t: int) -> bool {
    &&& 0 <= s < e < t - 1
    &&& t <= file.len()
    &&& forall|i: int| s <= i < e ==> text::is_digit(#[trigger] file[i])
    &&& file[e] == 'x'
    &&& forall|i: int| e < i < t ==> text::is_digit(#[trigger] file[i])
    &&& s == 0 || !text::is_digit(file[s - 1])
    &&& t == file.len() || !text::is_digit(file[t])
}

/// Whether `file` holds its first size from `s` to `t`.
pub open spec fn first_size_at(file: Seq<char>, s: int, t: int) -> bool {
    &&& size_at(file, s, t)
    &&& forall|a: int, b: int| 0 <= a < s ==> !#[trigger] size_at(file, a, b)
}

/// Whether `file` holds no size.
pub open spec fn no_size(file: Seq<char>) -> bool {
    forall|a: int, b: int| !#[trigger] size_at(file, a, b)
}

/// What stands before the first question mark.
pub open spec fn path_part(url: Seq<char>) -> Seq<char> {
    url.take(text::index_of(url, '?'))
}

/// The first question mark and what follows it.
pub open spec fn query_part(url: Seq<char>) -> Seq<char> {
    url.skip(text::index_of(url, '?'))
}

/// Where the file name of an address begins.
pub open spec fn file_start(url: Seq<char>) -> int {
    outside::last_index_of(path_part(url), '/') + 1
}

/// The file name of an address.
pub open spec fn file_part(url: Seq<char>) -> Seq<char> {
    path_part(url).skip(file_start(url))
}

/// A size as an address writes it.
pub open spec fn square(size: nat) -> Seq<char> {
    text::decimal(size) + seq!['x'] + text::decimal(size)
}

/// An address with the first size of its file name made `size`. What stands
/// before the file name and in the query is left alone.
pub open spec fn resized(url: Seq<char>, s: int, t: int, size: nat) -> Seq<char> {
    path_part(url).take(file_start(url)) + file_part(url).take(s) + square(size) + file_part(
        url,
    ).skip(t) + query_part(url)
}

/// The end of the run of digits that begins at `from`.
fn digits_end(v: &Vec<char>, from: usize, to: usize) -> (r: usize)
    requires
        from <= to <= v@.len(),
    ensures
        from <= r <= to,
        forall|i: int| from <= i < r ==> text::is_digit(#[trigger] v@[i]),
        r == to || !text::is_digit(v@[r as int]),
{
    let mut i: usize = from;
    while i < to && '0' <= v[i] && v[i] <= '9'
        invariant
            from <= i <= to <= v@.len(),
            forall|k: int| from <= k < i ==> text::is_digit(#[trigger] v@[k]),
        decreases to - i,
    {
        i += 1;
    }
    i
}

/// No size begins where there is no whole run of digits, an `x` and a digit.
proof fn lemma_no_size_here(file: Seq<char>, s: int, e: int)
    requires
        0 <= s <= e <= file.len(),
        forall|i: int| s <= i < e ==> text::is_digit(#[trigger] file[i]),
        e == file.len() || !text::is_digit(file[e]),
        s == e || e == file.len() || file[e] != 'x' || e + 1 >= file.len() || !text::is_digit(
            file[e + 1],
        ),
    ensures
        forall|b: int| !#[trigger] size_at(file, s, b),
{
    assert forall|b: int| !#[trigger] size_at(file, s, b) by {
        if size_at(file, s, b) {
            let x = choose|x: int| size_split(file, s, x, b);
            if x < e {
                assert(text::is_digit(file[x]));
            } else if x > e {
                assert(text::is_digit(file[e]));
            } else {
                assert(text::is_digit(file[e + 1]));
            }
        }
    }
}

/// No size begins inside a run of digits.
proof fn lemma_no_size_inside(file: Seq<char>, s: int)
    requires
        0 < s <= file.len(),
        text::is_digit(file[s - 1]),
    ensures
        forall|b: int| !#[trigger] size_at(file, s, b),
{
    assert forall|b: int| !#[trigger] size_at(file, s, b) by {
        if size_at(file, s, b) {
            let x = choose|x: int| size_split(file, s, x, b);
        }
    }
}

/// Where the first size of a file name stands.
fn find_size(v: &Vec<char>, from: usize, to: usize) -> (r: Option<(usize, usize)>)
    requires
        from <= to <= v@.len(),
    ensures
        ({
            let file = v@.subrange(from as int, to as int);
            match r {
                Some((s, t)) => from <= s <= t <= to && first_size_at(file, s - from, t - from),
                None => no_size(file),
            }
        }),
{
    let ghost file = v@.subrange(from as int, to as int);
    let mut i: usize = from;
    while i < to
        invariant
            from <= i <= to <= v@.len(),
            file == v@.subrange(from as int, to as int),
            forall|a: int, b: int| 0 <= a < i - from ==> !#[trigger] size_at(file, a, b),
            i == from || i == to || !text::is_digit(v@[i as int]) || !text::is_digit(v@[i - 1]),
        decreases to - i,
    {
        let start: usize = i;
        let end: usize = digits_end(v, start, to);
        let ghost s = start - from;
        let ghost e = end - from;
        proof {
            assert forall|k: int| s <= k < e implies text::is_digit(#[trigger] file[k]) by {
                assert(file[k] == v@[k + from]);
            }
            assert(e < file.len() ==> file[e] == v@[end as int]);
        }
        if end == start {
            proof {
                lemma_no_size_here(file, s, e);
            }
            i = start + 1;
            continue;
        }
        if end < to && v[end] == 'x' {
            let after: usize = end + 1;
            let close: usize = digits_end(v, after, to);
            if close > after {
                proof {
                    let t = close - from;
                    assert forall|k: int| e < k < t implies text::is_digit(#[trigger] file[k]) by {
                        assert(file[k] == v@[k + from]);
                    }
                    assert(t < file.len() ==> file[t] == v@[close as int]);
                    assert(s > 0 ==> file[s - 1] == v@[start - 1]);
                    assert(text::is_digit(v@[start as int]));
                    assert(size_split(file, s, e, t));
                    assert(size_at(file, s, t));
                }
                return Some((start, close));
            }
            proof {
                assert(e + 1 < file.len() ==> file[e + 1] == v@[end + 1]);
                lemma_no_size_here(file, s, e);
                assert forall|a: int, b: int| 0 <= a < e + 1 implies !#[trigger] size_at(
                    file,
                    a,
                    b,
                ) by {
                    if a > s && a <= e {
                        assert(text::is_digit(file[a - 1]));
                        lemma_no_size_inside(file, a);
                    }
                }
            }
            i = after;
        } else {
            proof {
                lemma_no_size_here(file, s, e);
                assert forall|a: int, b: int| 0 <= a < e implies !#[trigger] size_at(file, a, b) by {
                    if a > s {
                        assert(text::is_digit(file[a - 1]));
                        lemma_no_size_inside(file, a);
                    }
                }
            }
            i = end;
        }
    }
    assert forall|a: int, b: int| !#[trigger] size_at(file, a, b) by {
        if size_at(file, a, b) {
            let x = choose|x: int| size_split(file, a, x, b);
        }
    }
    None
}

/// Where `c` last stands in the first `to` characters, as the count of what
/// stands up to and with it; zero if it does not.
fn after_last(v: &Vec<char>, to: usize, c: char) -> (r: usize)
    requires
        to <= v@.len(),
    ensures
        r == outside::last_index_of(v@.take(to as int), c) + 1,
        r <= to,
{
    let mut i: usize = to;
    while i > 0 && v[i - 1] != c
        invariant
            i <= to <= v@.len(),
            outside::last_index_of(v@.take(to as int), c) == outside::last_index_of(
                v@.take(i as int),
                c,
            ),
        decreases i,
    {
        assert(v@.take(i as int).last() == v@[i - 1]);
        assert(v@.take(i as int).drop_last() =~= v@.take(i - 1));
        i -= 1;
    }
    assert(i > 0 ==> v@.take(i as int).last() == v@[i - 1]);
    i
}

/// An address with the first size of its file name made `size`; `None` where it
/// has none.
#[verifier::rlimit(30)]
pub fn rewrite_literal_size(url: &str, size: u32) -> (r: Option<String>)
    ensures
        match r {
            Some(out) => file_start(url@) > 0 && exists|s: int, t: int| #[trigger]
                first_size_at(file_part(url@), s, t) && out@ == resized(url@, s, t, size as nat),
            None => file_start(url@) == 0 || no_size(file_part(url@)),
        },
{
    let v = text::to_chars(url);
    let q: usize = text::find_char(&v, 0, v.len(), '?');
    assert(v@.subrange(0, v@.len() as int) =~= v@);
    let start: usize = after_last(&v, q, '/');
    if start == 0 {
        return None;
    }
    assert(v@.subrange(start as int, q as int) =~= file_part(url@));
    match find_size(&v, start, q) {
        None => None,
        Some((s, t)) => {
            let mut out = text::slice(&v, 0, s);
            text::push_decimal(&mut out, size as u128);
            out.push('x');
            text::push_decimal(&mut out, size as u128);
            let rest = text::slice(&v, t, v.len());
            out.append(rest.as_str());
            proof {
                let a = s - start;
                let b = t - start;
                assert(first_size_at(file_part(url@), a, b));
                assert(v@.subrange(0, s as int) =~= path_part(url@).take(start as int) + file_part(
                    url@,
                ).take(a));
                assert(v@.subrange(t as int, v@.len() as int) =~= file_part(url@).skip(b)
                    + query_part(url@));
                assert(out@ =~= resized(url@, a, b, size as nat));
            }
            Some(out)
        },
    }
}

/// Whether a cover's address has places for its size.
pub open spec fn has_places(template: Seq<char>) -> bool {
    text::contains_text(template, "{w}"@) || text::contains_text(template, "{h}"@)
}

/// A cover's address with its places filled in.
pub open spec fn filled(template: Seq<char>, size: nat) -> Seq<char> {
    let n = text::decimal(size);
    text::replaced(
        text::replaced(
            text::replaced(text::replaced(template, "{w}"@, n), "{h}"@, n),
            "{f}"@,
            "jpg"@,
        ),
        "{c}"@,
        "bb"@,
    )
}

/// Whether `out` is the address of a stored cover at a size. A reference is no
/// address and stays as it is.
pub open spec fn is_resolved(template: Seq<char>, size: nat, out: Seq<char>) -> bool {
    if is_ref(template) {
        out == template
    } else if has_places(template) {
        out == filled(template, size)
    } else if file_start(template) == 0 || no_size(file_part(template)) {
        out == template
    } else {
        exists|s: int, t: int| #[trigger]
            first_size_at(file_part(template), s, t) && out == resized(template, s, t, size)
    }
}

/// The address of a stored cover at a size.
pub fn resolve_template(template: &str, size: u32) -> (r: String)
    ensures
        is_resolved(template@, size as nat, r@),
        "subsonic:"@.is_prefix_of(template@) ==> r@ == template@,
        !"subsonic:"@.is_prefix_of(template@) && (text::contains_text(template@, "{w}"@)
            || text::contains_text(template@, "{h}"@)) ==> r@ == text::replaced(
            text::replaced(
                text::replaced(
                    text::replaced(template@, "{w}"@, text::decimal(size as nat)),
                    "{h}"@,
                    text::decimal(size as nat),
                ),
                "{f}"@,
                "jpg"@,
            ),
            "{c}"@,
            "bb"@,
        ),
{
    if is_subsonic_ref(template) {
        return template.to_string();
    }
    if text::contains(template, "{w}") || text::contains(template, "{h}") {
        let n = text::show(size as u64);
        let a = text::replace(template, "{w}", n.as_str());
        let b = text::replace(a.as_str(), "{h}", n.as_str());
        let c = text::replace(b.as_str(), "{f}", "jpg");
        return text::replace(c.as_str(), "{c}", "bb");
    }
    match rewrite_literal_size(template, size) {
        Some(out) => {
            proof {
                let (s, t) = choose|s: int, t: int| #[trigger]
                    first_size_at(file_part(template@), s, t) && out@ == resized(
                        template@,
                        s,
                        t,
                        size as nat,
                    );
                assert(size_at(file_part(template@), s, t));
            }
            out
        },
        None => template.to_string(),
    }
}

/// A file name has one first size at most, so an address has one answer.
pub proof fn lemma_first_size_is_unique(file: Seq<char>, s: int, t: int, a: int, b: int)
    requires
        first_size_at(file, s, t),
        first_size_at(file, a, b),
    ensures
        s == a,
        t == b,
{
    let e = choose|e: int| size_split(file, s, e, t);
    let x = choose|x: int| size_split(file, a, x, b);
    if s < a {
        assert(!size_at(file, s, t));
    }
    if a < s {
        assert(!size_at(file, a, b));
    }
    if e < x {
        assert(text::is_digit(file[e]));
    }
    if x < e {
        assert(text::is_digit(file[x]));
    }
    if t < b {
        assert(text::is_digit(file[t]));
    }
    if b < t {
        assert(text::is_digit(file[b]));
    }
}

/// A size that an address writes out is made the size that is asked for: all that
/// stands around it, the query too, is left as it is.
pub proof fn lemma_written_sizes_are_changed(
    head: Seq<char>,
    front: Seq<char>,
    width: nat,
    height: nat,
    back: Seq<char>,
    query: Seq<char>,
    size: nat,
    out: Seq<char>,
)
    requires
        ({
            let file = front + text::decimal(width) + seq!['x'] + text::decimal(height) + back;
            let url = head + seq!['/'] + file + query;
            &&& is_resolved(url, size, out)
            &&& !is_ref(url)
            &&& !has_places(url)
        }),
        !head.contains('?') && !front.contains('?') && !back.contains('?'),
        !front.contains('/') && !back.contains('/'),
        forall|i: int| 0 <= i < front.len() ==> !text::is_digit(#[trigger] front[i]),
        back.len() > 0 ==> !text::is_digit(back[0]),
        query.len() > 0 ==> query[0] == '?',
    ensures
        out == head + seq!['/'] + front + (text::decimal(size) + seq!['x'] + text::decimal(size))
            + back + query,
{
    let w = text::decimal(width);
    let h = text::decimal(height);
    text::lemma_decimal(width);
    text::lemma_decimal(height);
    lemma_free_of_marks(front, w, h, back);
    lemma_written_size_is_first(front, w, h, back);
    lemma_cut_around(front, w, h, back);
    let file = front + w + seq!['x'] + h + back;
    lemma_address_parts(head, file, query);
    lemma_one_size(
        head + seq!['/'] + file + query,
        front.len() as int,
        (front.len() + w.len() + 1 + h.len()) as int,
        size,
        out,
    );
}

/// What an address becomes that holds its first size there.
proof fn lemma_one_size(url: Seq<char>, s: int, t: int, size: nat, out: Seq<char>)
    requires
        is_resolved(url, size, out),
        !is_ref(url),
        !has_places(url),
        file_start(url) > 0,
        first_size_at(file_part(url), s, t),
    ensures
        out == resized(url, s, t, size),
{
    assert(size_at(file_part(url), s, t));
    let (a, b) = choose|a: int, b: int| #[trigger]
        first_size_at(file_part(url), a, b) && out == resized(url, a, b, size);
    lemma_first_size_is_unique(file_part(url), s, t, a, b);
}

proof fn lemma_cut_around(front: Seq<char>, w: Seq<char>, h: Seq<char>, back: Seq<char>)
    ensures
        (front + w + seq!['x'] + h + back).take(front.len() as int) == front,
        (front + w + seq!['x'] + h + back).skip((front.len() + w.len() + 1 + h.len()) as int)
            == back,
{
    let file = front + w + seq!['x'] + h + back;
    assert(file.take(front.len() as int) =~= front);
    assert(file.skip((front.len() + w.len() + 1 + h.len()) as int) =~= back);
}

/// A file name with a size holds no slash and no question mark where what stands
/// around the size holds none.
proof fn lemma_free_of_marks(front: Seq<char>, w: Seq<char>, h: Seq<char>, back: Seq<char>)
    requires
        text::all_digits(w),
        text::all_digits(h),
        !front.contains('?') && !back.contains('?'),
        !front.contains('/') && !back.contains('/'),
    ensures
        forall|i: int|
            0 <= i < (front + w + seq!['x'] + h + back).len() ==> (#[trigger] (front + w + seq!['x']
                + h + back)[i]) != '?' && (front + w + seq!['x'] + h + back)[i] != '/',
{
    let file = front + w + seq!['x'] + h + back;
    assert forall|i: int| 0 <= i < file.len() implies (#[trigger] file[i]) != '?' && file[i] != '/' by {
        let f = front.len() as int;
        if i < f {
            assert(front.contains(front[i]));
            assert(file[i] == front[i]);
        } else if i < f + w.len() {
            assert(text::is_digit(w[i - f]));
            assert(file[i] == w[i - f]);
        } else if i == f + w.len() {
            assert(file[i] == 'x');
        } else if i < f + w.len() + 1 + h.len() {
            assert(text::is_digit(h[i - f - w.len() - 1]));
            assert(file[i] == h[i - f - w.len() - 1]);
        } else {
            let k = i - f - w.len() - 1 - h.len();
            assert(back.contains(back[k]));
            assert(file[i] == back[k]);
        }
    }
}

/// The parts of an address whose file name holds no slash.
proof fn lemma_address_parts(head: Seq<char>, file: Seq<char>, query: Seq<char>)
    requires
        !head.contains('?'),
        forall|i: int| 0 <= i < file.len() ==> (#[trigger] file[i]) != '?' && file[i] != '/',
        query.len() > 0 ==> query[0] == '?',
    ensures
        ({
            let url = head + seq!['/'] + file + query;
            &&& path_part(url) == head + seq!['/'] + file
            &&& query_part(url) == query
            &&& file_start(url) == head.len() + 1
            &&& file_part(url) == file
            &&& path_part(url).take(file_start(url)) == head + seq!['/']
        }),
{
    let base = head + seq!['/'] + file;
    let url = base + query;
    assert forall|i: int| 0 <= i < base.len() implies url[i] != '?' by {
        if i < head.len() {
            assert(head.contains(head[i]));
            assert(url[i] == head[i]);
        } else if i > head.len() {
            assert(url[i] == file[i - head.len() - 1]);
        }
    }
    text::lemma_index_of_is(url, '?', base.len() as int);
    assert(path_part(url) =~= base);
    assert(query_part(url) =~= query);
    assert forall|j: int| head.len() < j < base.len() implies base[j] != '/' by {
        assert(base[j] == file[j - head.len() - 1]);
    }
    outside::lemma_last_index_of_is(base, '/', head.len() as int);
    assert(file_part(url) =~= file);
    assert(base.take(head.len() as int + 1) =~= head + seq!['/']);
}

proof fn lemma_written_size_is_first(
    front: Seq<char>,
    w: Seq<char>,
    h: Seq<char>,
    back: Seq<char>,
)
    requires
        w.len() > 0,
        h.len() > 0,
        text::all_digits(w),
        text::all_digits(h),
        forall|i: int| 0 <= i < front.len() ==> !text::is_digit(#[trigger] front[i]),
        back.len() > 0 ==> !text::is_digit(back[0]),
    ensures
        first_size_at(
            front + w + seq!['x'] + h + back,
            front.len() as int,
            (front.len() + w.len() + 1 + h.len()) as int,
        ),
{
    let file = front + w + seq!['x'] + h + back;
    let s = front.len() as int;
    let e = s + w.len();
    let t = e + 1 + h.len();
    assert forall|i: int| s <= i < e implies text::is_digit(#[trigger] file[i]) by {
        assert(file[i] == w[i - s]);
    }
    assert forall|i: int| e < i < t implies text::is_digit(#[trigger] file[i]) by {
        assert(file[i] == h[i - e - 1]);
    }
    assert(file[e] == 'x');
    if t < file.len() {
        assert(file[t] == back[0]);
    }
    if s > 0 {
        assert(file[s - 1] == front[s - 1]);
    }
    assert(size_split(file, s, e, t));
    assert forall|a: int, b: int| 0 <= a < s implies !#[trigger] size_at(file, a, b) by {
        if size_at(file, a, b) {
            let x = choose|x: int| size_split(file, a, x, b);
            assert(text::is_digit(file[a]));
            assert(file[a] == front[a]);
        }
    }
}

// ── the cache ──────────────────────────────────────────────────────────

/// A query parameter that only signs a request, and changes each time.
pub open spec fn is_signature(part: Seq<char>) -> bool {
    "x-amz-"@.is_prefix_of(text::lowered(part))
}

/// The parameters of a query that say what is asked for.
pub open spec fn kept_parts(query: Seq<char>) -> Seq<Seq<char>> {
    text::split(query, '&').filter(|p: Seq<char>| !is_signature(p))
}

/// An address without what only signs it.
pub open spec fn stable_url(url: Seq<char>) -> Seq<char> {
    if !url.contains('?') {
        url
    } else {
        let kept = kept_parts(query_part(url).skip(1));
        if kept.len() == 0 {
            path_part(url)
        } else {
            path_part(url) + "?"@ + text::joined(kept, "&"@)
        }
    }
}

/// The pieces of a query that are kept.
fn keep_parts(parts: Vec<String>) -> (r: Vec<String>)
    ensures
        text::views(r@) == text::views(parts@).filter(|p: Seq<char>| !is_signature(p)),
{
    let ghost all = text::views(parts@);
    let ghost keep = |p: Seq<char>| !is_signature(p);
    let mut out: Vec<String> = Vec::new();
    let mut i: usize = 0;
    assert(all.take(0).filter(keep) =~= Seq::empty()) by {
        reveal(Seq::filter);
    }
    assert(text::views(out@) =~= Seq::empty());
    while i < parts.len()
        invariant
            all == text::views(parts@),
            keep == (|p: Seq<char>| !is_signature(p)),
            i <= parts@.len(),
            text::views(out@) == all.take(i as int).filter(keep),
        decreases parts@.len() - i,
    {
        let ghost before = text::views(out@);
        proof {
            reveal(Seq::filter);
            assert(all.take(i + 1).drop_last() =~= all.take(i as int));
            assert(all.take(i + 1).last() == parts@[i as int]@);
        }
        let low = text::to_lower(parts[i].as_str());
        if !text::starts_with(low.as_str(), "x-amz-") {
            out.push(parts[i].clone());
            assert(text::views(out@) =~= before.push(parts@[i as int]@));
        }
        i += 1;
    }
    assert(all.take(i as int) =~= all);
    out
}

/// An address without what only signs it.
fn without_signature(url: &str) -> (r: String)
    ensures
        r@ == stable_url(url@),
{
    let v = text::to_chars(url);
    let q: usize = text::find_char(&v, 0, v.len(), '?');
    assert(v@.subrange(0, v@.len() as int) =~= v@);
    proof {
        text::lemma_index_of(url@, '?');
    }
    if q == v.len() {
        return url.to_string();
    }
    let path = text::slice(&v, 0, q);
    let query = text::slice(&v, q + 1, v.len());
    assert(path@ =~= path_part(url@));
    assert(query@ =~= query_part(url@).skip(1));
    let kept = keep_parts(text::split_on(query.as_str(), '&'));
    if kept.len() == 0 {
        return path;
    }
    let mut out = path;
    out.append("?");
    let joined = text::join(&kept, "&");
    out.append(joined.as_str());
    out
}

/// The key a cover is cached under. A presigned address has a new signature each
/// time; the key does not.
pub fn cache_key(url: &str) -> (r: String)
    ensures
        r@ == outside::sha256_of(stable_url(url@)),
        !url@.contains('?') ==> r@ == outside::sha256_of(url@),
        outside::is_hex_text(r@, 64),
{
    let stable = without_signature(url);
    outside::sha256_hex(stable.as_str())
}

/// Two addresses of one path whose parameters differ in their signatures alone
/// are cached under one key.
pub proof fn lemma_signatures_do_not_matter(a: Seq<char>, b: Seq<char>)
    requires
        a.contains('?'),
        b.contains('?'),
        path_part(a) == path_part(b),
        kept_parts(query_part(a).skip(1)) == kept_parts(query_part(b).skip(1)),
    ensures
        stable_url(a) == stable_url(b),
        outside::sha256_of(stable_url(a)) == outside::sha256_of(stable_url(b)),
{
}

/// An address with nothing but signatures behind it is cached as the bare path
/// is.
pub proof fn lemma_only_signatures(url: Seq<char>)
    requires
        url.contains('?'),
        forall|i: int|
            0 <= i < text::split(query_part(url).skip(1), '&').len() ==> is_signature(
                #[trigger] text::split(query_part(url).skip(1), '&')[i],
            ),
    ensures
        stable_url(url) == path_part(url),
        stable_url(path_part(url)) == path_part(url),
{
    let parts = text::split(query_part(url).skip(1), '&');
    lemma_filter_none(parts);
    text::lemma_index_of(url, '?');
}

proof fn lemma_filter_none(parts: Seq<Seq<char>>)
    requires
        forall|i: int| 0 <= i < parts.len() ==> is_signature(#[trigger] parts[i]),
    ensures
        parts.filter(|p: Seq<char>| !is_signature(p)).len() == 0,
    decreases parts.len(),
{
    reveal(Seq::filter);
    if parts.len() > 0 {
        assert(is_signature(parts[parts.len() - 1]));
        assert forall|i: int| 0 <= i < parts.len() - 1 implies is_signature(
            #[trigger] parts.drop_last()[i],
        ) by {
            assert(is_signature(parts[i]));
        }
        lemma_filter_none(parts.drop_last());
    }
}

/// The name of a cover's cache file.
pub open spec fn cache_name(template: Seq<char>, size: nat) -> Seq<char> {
    outside::sha256_of(stable_url(template)) + "-"@ + text::decimal(size) + ".img"@
}

/// Where a cover is cached. It is keyed on what is stored, never on a signed
/// address: a fresh salt must not lose every cached cover.
pub fn cache_path(dir: &str, template: &str, size: u32) -> (r: String)
    ensures
        outside::is_plain_name(cache_name(template@, size as nat)),
        outside::is_adjoined(dir@, cache_name(template@, size as nat), r@),
        outside::is_adjoined(
            dir@,
            outside::sha256_of(stable_url(template@)) + "-"@ + text::decimal(size as nat) + ".img"@,
            r@,
        ),
        outside::is_hex_text(outside::sha256_of(stable_url(template@)), 64),
{
    let mut name = cache_key(template);
    let ghost key = name@;
    name.append("-");
    let shown = text::show(size as u64);
    name.append(shown.as_str());
    name.append(".img");
    proof {
        reveal_strlit("-");
        reveal_strlit(".img");
        text::lemma_decimal(size as nat);
        let d = text::decimal(size as nat);
        assert forall|i: int| 0 <= i < name@.len() implies name@[i] != '/' && name@[i] != '\\'
            && name@[i] != ':' by {
            if i < 64 {
                assert(outside::is_hex_lower(key[i]));
            } else if i == 64 {
                assert(name@[i] == "-"@[0]);
            } else if i < 65 + d.len() {
                assert(text::is_digit(d[i - 65]));
                assert(name@[i] == d[i - 65]);
            } else {
                assert(name@[i] == ".img"@[i - 65 - d.len()]);
            }
        }
        assert(name@ =~= cache_name(template@, size as nat));
    }
    outside::path_join(dir, name.as_str())
}

/// Whether a query holds nothing but signatures: one parameter or several, each of
/// which only signs.
pub open spec fn is_signing(query: Seq<char>, params: Seq<Seq<char>>) -> bool {
    &&& params.len() > 0
    &&& forall|i: int|
        0 <= i < params.len() ==> is_signature(#[trigger] params[i]) && !params[i].contains('&')
    &&& query == text::joined(params, "&"@)
}

/// An address that is signed anew, by whatever parameters, is cached where it was
/// and where the bare address is: in one directory, with the separator of the
/// machine, the three paths are one.
pub proof fn lemma_signing_keeps_the_path(
    dir: Seq<char>,
    base: Seq<char>,
    query: Seq<char>,
    params: Seq<Seq<char>>,
    other_query: Seq<char>,
    other_params: Seq<Seq<char>>,
    size: nat,
    separator: char,
)
    requires
        !base.contains('?'),
        is_signing(query, params),
        is_signing(other_query, other_params),
    ensures
        cache_name(base + "?"@ + query, size) == cache_name(base, size),
        cache_name(base + "?"@ + other_query, size) == cache_name(base, size),
        ({
            let signed = outside::adjoined(dir, cache_name(base + "?"@ + query, size), separator);
            let anew = outside::adjoined(
                dir,
                cache_name(base + "?"@ + other_query, size),
                separator,
            );
            let bare = outside::adjoined(dir, cache_name(base, size), separator);
            signed == anew && anew == bare
        }),
{
    lemma_signing_keeps_the_name(base, query, params, size);
    lemma_signing_keeps_the_name(base, other_query, other_params, size);
}

proof fn lemma_signing_keeps_the_name(
    base: Seq<char>,
    query: Seq<char>,
    params: Seq<Seq<char>>,
    size: nat,
)
    requires
        !base.contains('?'),
        is_signing(query, params),
    ensures
        cache_name(base + "?"@ + query, size) == cache_name(base, size),
{
    reveal_strlit("?");
    reveal_strlit("&");
    let url = base + "?"@ + query;
    assert forall|j: int| 0 <= j < base.len() implies url[j] != '?' by {
        assert(base.contains(base[j]));
    }
    assert(url[base.len() as int] == '?');
    text::lemma_index_of_is(url, '?', base.len() as int);
    assert(path_part(url) =~= base);
    assert(query_part(url).skip(1) =~= query);
    assert("&"@ =~= seq!['&']);
    text::lemma_split_undoes_joined(params, '&');
    lemma_only_signatures(url);
}

/// Two sizes of one cover are cached at different paths, in every directory.
pub proof fn lemma_sizes_have_paths_apart(
    dir: Seq<char>,
    template: Seq<char>,
    a: nat,
    b: nat,
    pa: Seq<char>,
    pb: Seq<char>,
)
    requires
        a != b,
        outside::is_adjoined(dir, cache_name(template, a), pa),
        outside::is_adjoined(dir, cache_name(template, b), pb),
    ensures
        pa != pb,
{
    lemma_sizes_are_cached_apart(template, a, b);
}

/// Two sizes of one cover are cached in different files.
pub proof fn lemma_sizes_are_cached_apart(template: Seq<char>, a: nat, b: nat)
    requires
        a != b,
    ensures
        cache_name(template, a) != cache_name(template, b),
{
    if cache_name(template, a) == cache_name(template, b) {
        let key = outside::sha256_of(stable_url(template));
        let head = key + "-"@;
        let n = head.len() as int;
        let tail = ".img"@;
        let x = text::decimal(a);
        let y = text::decimal(b);
        assert(cache_name(template, a).len() == n + x.len() + tail.len());
        assert(cache_name(template, b).len() == n + y.len() + tail.len());
        assert(cache_name(template, a).subrange(n, n + x.len()) =~= x);
        assert(cache_name(template, b).subrange(n, n + y.len()) =~= y);
        text::lemma_decimal_injective(a, b);
    }
}

/// Covers whose keys differ are cached in different files, whatever their sizes.
pub proof fn lemma_covers_are_cached_apart(a: Seq<char>, b: Seq<char>, m: nat, n: nat)
    requires
        outside::is_hex_text(outside::sha256_of(stable_url(a)), 64),
        outside::is_hex_text(outside::sha256_of(stable_url(b)), 64),
        outside::sha256_of(stable_url(a)) != outside::sha256_of(stable_url(b)),
    ensures
        cache_name(a, m) != cache_name(b, n),
{
    if cache_name(a, m) == cache_name(b, n) {
        assert(cache_name(a, m).take(64) =~= outside::sha256_of(stable_url(a)));
        assert(cache_name(b, n).take(64) =~= outside::sha256_of(stable_url(b)));
    }
}

// ── serving ────────────────────────────────────────────────────────────

/// The type of an image, by what its address holds.
pub fn content_type(url: &str) -> (r: &'static str)
    ensures
        r@ == (if text::contains_text(text::lowered(url@), ".png"@) {
            "image/png"@
        } else if text::contains_text(text::lowered(url@), ".webp"@) {
            "image/webp"@
        } else {
            "image/jpeg"@
        }),
{
    let lower = text::to_lower(url);
    if text::contains(lower.as_str(), ".png") {
        "image/png"
    } else if text::contains(lower.as_str(), ".webp") {
        "image/webp"
    } else {
        "image/jpeg"
    }
}

/// The size asked for when a request names none.
pub const DEFAULT_SIZE: u32 = 300;

/// The smallest size that is served.
pub const MIN_SIZE: u32 = 32;

/// A requested size within what can be served. Zero stands for full size.
pub open spec fn served_size(raw: u32) -> u32 {
    if raw == 0 {
        0
    } else if raw < MIN_SIZE {
        MIN_SIZE
    } else if raw > MAX_ARTWORK {
        MAX_ARTWORK
    } else {
        raw
    }
}

/// The value of the first parameter called `name`.
pub open spec fn first_value(pairs: Seq<(Seq<char>, Seq<char>)>, name: Seq<char>) -> Option<
    Seq<char>,
>
    decreases pairs.len(),
{
    if pairs.len() == 0 {
        None
    } else if pairs[0].0 == name {
        Some(pairs[0].1)
    } else {
        first_value(pairs.skip(1), name)
    }
}

/// The size that the parameters of a request ask for.
pub open spec fn size_in(pairs: Seq<(Seq<char>, Seq<char>)>) -> u32 {
    let raw = match first_value(pairs, "w"@) {
        Some(v) => match text::read_unsigned(v, u32::MAX as nat) {
            Some(n) => n as u32,
            None => DEFAULT_SIZE,
        },
        None => DEFAULT_SIZE,
    };
    served_size(raw)
}

/// A path segment with its percent escapes undone, where that is text.
pub open spec fn unescaped(segment: Seq<char>) -> Seq<char> {
    let bytes = percent_bytes(segment);
    if valid_utf8(bytes) {
        decode_utf8(bytes)
    } else {
        segment
    }
}

/// A path segment with its percent escapes undone, as bytes.
pub open spec fn percent_bytes(segment: Seq<char>) -> Seq<u8> {
    outside::percent_decoded(encode_utf8(segment))
}

/// What a request asks for: the id that its last path segment names, and a size.
pub open spec fn request_of(
    segments: Option<Seq<Seq<char>>>,
    pairs: Option<Seq<(Seq<char>, Seq<char>)>>,
) -> Option<(Seq<char>, u32)> {
    if segments is Some && pairs is Some && segments->0.len() > 0 && segments->0.last().len() > 0 {
        Some((unescaped(segments->0.last()), size_in(pairs->0)))
    } else {
        None
    }
}

/// The parsed parts of a request's address.
pub open spec fn segment_views(v: Option<Vec<String>>) -> Option<Seq<Seq<char>>> {
    match v {
        Some(s) => Some(text::views(s@)),
        None => None,
    }
}

/// The parsed parameters of a request's address.
pub open spec fn pairs_views(v: Option<Vec<(String, String)>>) -> Option<
    Seq<(Seq<char>, Seq<char>)>,
> {
    match v {
        Some(s) => Some(outside::pair_views(s@)),
        None => None,
    }
}

fn find_value(pairs: &Vec<(String, String)>, name: &str) -> (r: Option<String>)
    ensures
        text::view_of(r) == first_value(outside::pair_views(pairs@), name@),
{
    let ghost all = outside::pair_views(pairs@);
    let mut i: usize = 0;
    assert(all.skip(0) =~= all);
    while i < pairs.len()
        invariant
            all == outside::pair_views(pairs@),
            i <= pairs@.len(),
            first_value(all, name@) == first_value(all.skip(i as int), name@),
        decreases pairs@.len() - i,
    {
        assert(all.skip(i as int)[0] == all[i as int]);
        assert(all.skip(i as int).skip(1) =~= all.skip(i + 1));
        if text::same(pairs[i].0.as_str(), name) {
            return Some(pairs[i].1.clone());
        }
        i += 1;
    }
    None
}

/// What a request asks for: the last part of its path, made readable, and the size
/// its first `w` gives, 300 where it gives none. Zero is the original; any other
/// size is at least 32 and at most 3000.
pub proof fn lemma_requests(
    segments: Seq<Seq<char>>,
    pairs: Seq<(Seq<char>, Seq<char>)>,
    i: int,
    n: u32,
)
    ensures
        segments.len() > 0 && segments.last().len() > 0 ==> request_of(
            Some(segments),
            Some(pairs),
        ) == Some((unescaped(segments.last()), size_in(pairs))),
        segments.len() == 0 || segments.last().len() == 0 ==> request_of(
            Some(segments),
            Some(pairs),
        ) is None,
        0 <= i < pairs.len() && pairs[i].0 == "w"@ && (forall|j: int|
            0 <= j < i ==> (#[trigger] pairs[j]).0 != "w"@) && pairs[i].1 == text::decimal(n as nat)
            ==> {
            &&& n == 0 ==> size_in(pairs) == 0
            &&& 0 < n < 32 ==> size_in(pairs) == 32
            &&& 32 <= n <= 3000 ==> size_in(pairs) == n
            &&& n > 3000 ==> size_in(pairs) == 3000
        },
        (forall|j: int| 0 <= j < pairs.len() ==> (#[trigger] pairs[j]).0 != "w"@) ==> size_in(pairs)
            == 300,
{
    text::lemma_decimal_reads_back(n as nat, u32::MAX as nat);
    if 0 <= i < pairs.len() && pairs[i].0 == "w"@ && forall|j: int|
        0 <= j < i ==> (#[trigger] pairs[j]).0 != "w"@ {
        lemma_first_value(pairs, "w"@, i);
    }
    if forall|j: int| 0 <= j < pairs.len() ==> (#[trigger] pairs[j]).0 != "w"@ {
        lemma_no_value(pairs, "w"@);
    }
}

proof fn lemma_first_value(pairs: Seq<(Seq<char>, Seq<char>)>, name: Seq<char>, i: int)
    requires
        0 <= i < pairs.len(),
        pairs[i].0 == name,
        forall|j: int| 0 <= j < i ==> (#[trigger] pairs[j]).0 != name,
    ensures
        first_value(pairs, name) == Some(pairs[i].1),
    decreases i,
{
    if i > 0 {
        assert(pairs[0].0 != name);
        let rest = pairs.skip(1);
        assert forall|j: int| 0 <= j < i - 1 implies (#[trigger] rest[j]).0 != name by {
            assert(pairs[j + 1].0 != name);
        }
        lemma_first_value(rest, name, i - 1);
    }
}

proof fn lemma_no_value(pairs: Seq<(Seq<char>, Seq<char>)>, name: Seq<char>)
    requires
        forall|j: int| 0 <= j < pairs.len() ==> (#[trigger] pairs[j]).0 != name,
    ensures
        first_value(pairs, name) is None,
    decreases pairs.len(),
{
    if pairs.len() > 0 {
        assert(pairs[0].0 != name);
        let rest = pairs.skip(1);
        assert forall|j: int| 0 <= j < rest.len() implies (#[trigger] rest[j]).0 != name by {
            assert(pairs[j + 1].0 != name);
        }
        lemma_no_value(rest, name);
    }
}

/// What a request asks for, given the parts of its address.
pub fn request_from(segments: Option<Vec<String>>, pairs: Option<Vec<(String, String)>>) -> (r:
    Option<(String, u32)>)
    ensures
        match r {
            Some((id, size)) => request_of(segment_views(segments), pairs_views(pairs)) == Some(
                (id@, size),
            ),
            None => request_of(segment_views(segments), pairs_views(pairs)) is None,
        },
{
    let segments = match segments {
        Some(s) => s,
        None => return None,
    };
    let pairs = match pairs {
        Some(p) => p,
        None => return None,
    };
    if segments.len() == 0 {
        return None;
    }
    let last = &segments[segments.len() - 1];
    assert(text::views(segments@).last() == last@);
    proof {
        reveal_strlit("");
        if last@.len() == 0 {
            assert(last@ =~= ""@);
        }
    }
    if text::same(last.as_str(), "") {
        return None;
    }
    let id = match outside::url_decode(last.as_str()) {
        Some(s) => s,
        None => last.clone(),
    };
    let raw: u32 = match find_value(&pairs, "w") {
        Some(v) => match text::parse_unsigned(v.as_str(), u32::MAX as u64) {
            Some(n) => n as u32,
            None => DEFAULT_SIZE,
        },
        None => DEFAULT_SIZE,
    };
    let size: u32 = if raw == 0 {
        0
    } else if raw < MIN_SIZE {
        MIN_SIZE
    } else if raw > MAX_ARTWORK {
        MAX_ARTWORK
    } else {
        raw
    };
    Some((id, size))
}

/// What a request asks for.
pub fn parse_request(uri: &str) -> (r: Option<(String, u32)>)
    ensures
        match r {
            Some((id, size)) => request_of(
                outside::url_segments_of(uri@),
                outside::url_pairs_of(uri@),
            ) == Some((id@, size)),
            None => request_of(
                outside::url_segments_of(uri@),
                outside::url_pairs_of(uri@),
            ) is None,
        },
{
    request_from(outside::url_segments(uri), outside::url_pairs(uri))
}

/// An id that was percent-encoded into a path segment is read back from it.
pub proof fn lemma_ids_round_trip(id: Seq<char>)
    ensures
        unescaped(outside::percent_encoded(encode_utf8(id))) == id,
{
    outside::lemma_url_round_trip(id);
}

/// The size to serve of a cover: its best for a request of full size, otherwise
/// no more than it has.
pub fn wanted_size(art: &Artwork, size: u32) -> (r: u32)
    ensures
        r == (if size == 0 || size >= art.best() {
            art.best()
        } else {
            size
        }),
{
    if size == 0 {
        art.best_size()
    } else {
        art.clamp(size)
    }
}

/// The headers of a served cover.
pub fn response_headers(mime: &str) -> (r: Vec<(String, String)>)
    ensures
        outside::pair_views(r@) == seq![
            ("Content-Type"@, mime@),
            ("Access-Control-Allow-Origin"@, "*"@),
            ("Cache-Control"@, "public, max-age=31536000, immutable"@),
        ],
{
    let r = vec![
        ("Content-Type".to_string(), mime.to_string()),
        ("Access-Control-Allow-Origin".to_string(), "*".to_string()),
        ("Cache-Control".to_string(), "public, max-age=31536000, immutable".to_string()),
    ];
    assert(outside::pair_views(r@) =~= seq![
        ("Content-Type"@, mime@),
        ("Access-Control-Allow-Origin"@, "*"@),
        ("Cache-Control"@, "public, max-age=31536000, immutable"@),
    ]);
    r
}

// ── fetching ───────────────────────────────────────────────────────────

/// Where a cover that is not cached comes from. A reference needs a client to
/// sign it.
pub fn fetch_url(template: &str, size: u32, signer: Option<&subsonic::Client>) -> (r: Result<
    String,
    String,
>)
    ensures
        if !is_ref(template@) {
            r is Ok && is_resolved(template@, size as nat, r->Ok_0@)
        } else {
            match signer {
                None => r is Err && r->Err_0@
                    == "subsonic artwork requested with no active client"@,
                Some(c) => r is Ok && exists|nanos: nat|
                    r->Ok_0@ == subsonic::signed(
                        c.base(),
                        "getCoverArt"@,
                        c.user(),
                        subsonic::token_of(
                            c.password(),
                            #[trigger] subsonic::salt_of(nanos, c.process()),
                        ),
                        subsonic::salt_of(nanos, c.process()),
                        seq![
                            ("id"@, template@.skip(subsonic::ARTWORK_PREFIX@.len() as int)),
                            ("size"@, text::decimal(size as nat)),
                        ],
                    ),
            }
        },
{
    match subsonic_id(template) {
        Some(id) => match signer {
            Some(client) => Ok(client.cover_art_url(id.as_str(), size)),
            None => Err("subsonic artwork requested with no active client".to_string()),
        },
        None => Ok(resolve_template(template, size)),
    }
}

/// What is said of a cover that could not be fetched. The address is left out on
/// purpose: it may carry a login's digest, and this is logged.
pub fn fetch_failure(timed_out: bool) -> (r: &'static str)
    ensures
        r@ == (if timed_out {
            "artwork timed out"@
        } else {
            "artwork could not be fetched"@
        }),
{
    if timed_out {
        "artwork timed out"
    } else {
        "artwork could not be fetched"
    }
}

/// A cover this large was not made smaller.
pub const LARGE_BYTES: usize = 40000;

/// How warming the cache went.
#[derive(Debug, Clone, Copy, PartialEq, Eq, Structural)]
pub struct Prefetch {
    pub total: usize,
    pub cached: usize,
    pub bytes: usize,
    pub unresizable: usize,
}

/// What a cached cover shows.
#[derive(Debug, Clone, Copy, PartialEq, Eq, Structural)]
pub enum PrefetchNote {
    Fine,
    /// Its address has no size to change.
    Unresizable,
    /// Its size was changed, and it is large all the same.
    StillLarge,
}

impl Prefetch {
    /// Before the first cover.
    pub fn new(total: usize) -> (r: Self)
        ensures
            r == (Prefetch { total, cached: 0, bytes: 0, unresizable: 0 }),
    {
        Prefetch { total, cached: 0, bytes: 0, unresizable: 0 }
    }

    /// A cover of `len` bytes is in the cache, asked for at size `want`.
    pub fn on_cached(&mut self, template: &str, want: u32, len: usize) -> (r: PrefetchNote)
        requires
            old(self).cached < usize::MAX,
            old(self).unresizable <= old(self).cached,
            old(self).bytes + len <= usize::MAX,
        ensures
            final(self).total == old(self).total,
            final(self).cached == old(self).cached + 1,
            final(self).bytes == old(self).bytes + len,
            final(self).unresizable == old(self).unresizable + (if r == PrefetchNote::Unresizable {
                1int
            } else {
                0
            }),
            r == PrefetchNote::Fine <==> len <= LARGE_BYTES,
            r == PrefetchNote::Fine <==> len <= 40000,
            r == PrefetchNote::Unresizable ==> is_resolved(template@, want as nat, template@),
            r == PrefetchNote::StillLarge ==> exists|out: Seq<char>| #[trigger]
                is_resolved(template@, want as nat, out) && out != template@,
    {
        self.cached = self.cached + 1;
        self.bytes = self.bytes + len;
        if len <= LARGE_BYTES {
            return PrefetchNote::Fine;
        }
        let resolved = resolve_template(template, want);
        if text::same(resolved.as_str(), template) {
            self.unresizable = self.unresizable + 1;
            PrefetchNote::Unresizable
        } else {
            PrefetchNote::StillLarge
        }
    }
}

/// A part of an address is a signature by its first six letters, in either case.
pub proof fn lemma_marks_of_a_signature(part: Seq<char>)
    ensures
        is_signature(part) <==> part.len() >= 6 && text::lowered(part.take(6)) == "x-amz-"@,
{
    reveal_strlit("x-amz-");
    if part.len() >= 6 {
        assert(text::lowered(part.take(6)) =~= text::lowered(part).take(6));
        if is_signature(part) {
            assert(text::lowered(part).take(6) =~= "x-amz-"@);
        }
    }
}

/// What a cover is known by: its address with what is behind the question mark, in
/// order, except for the signatures.
pub proof fn lemma_what_a_cover_is_known_by(base: Seq<char>, params: Seq<Seq<char>>)
    requires
        !base.contains('?'),
        params.len() > 0,
        forall|i: int| 0 <= i < params.len() ==> !(#[trigger] params[i]).contains('&'),
    ensures
        ({
            let kept = params.filter(|p: Seq<char>| !is_signature(p));
            stable_url(base + "?"@ + text::joined(params, "&"@)) == (if kept.len() == 0 {
                base
            } else {
                base + "?"@ + text::joined(kept, "&"@)
            })
        }),
        stable_url(base) == base,
{
    reveal_strlit("?");
    reveal_strlit("&");
    let query = text::joined(params, "&"@);
    let url = base + "?"@ + query;
    assert forall|j: int| 0 <= j < base.len() implies url[j] != '?' by {
        assert(base.contains(base[j]));
    }
    assert(url[base.len() as int] == '?');
    assert(url.contains('?'));
    text::lemma_index_of_is(url, '?', base.len() as int);
    assert(path_part(url) =~= base);
    assert(query_part(url).skip(1) =~= query);
    assert("&"@ =~= seq!['&']);
    text::lemma_split_undoes_joined(params, '&');
}

} // verus!
