//! Text as a sequence of characters.
//!
//! Every string of the library stands for the sequence of its characters, and
//! the rules elsewhere are stated over such sequences. This module holds the
//! vocabulary they share: white space, trimming, searching, splitting, joining,
//! replacing, and numbers written in decimal.

use vstd::prelude::*;

verus! {

/// Appends one character: `String::push` adds `c` after the characters that
/// were already there.
pub assume_specification[ String::push ](s: &mut String, c: char)
    ensures
        final(s)@ == old(s)@.push(c),
;

/// The characters of `s`, in order.
pub fn to_chars(s: &str) -> (v: Vec<char>)
    ensures
        v@ == s@,
{
    let mut v: Vec<char> = Vec::new();
    for c in it: s.chars()
        invariant
            it.seq() == s@,
            v@ == s@.take(it.index() as int),
    {
        v.push(c);
        assert(s@.take(it.index() + 1) =~= s@.take(it.index() as int).push(c));
    }
    assert(s@.take(s@.len() as int) =~= s@);
    v
}

/// The string that holds the characters of `v` from `from` up to `to`.
pub fn slice(v: &Vec<char>, from: usize, to: usize) -> (s: String)
    requires
        from <= to <= v@.len(),
    ensures
        s@ == v@.subrange(from as int, to as int),
{
    let mut s = String::new();
    let mut i: usize = from;
    assert(v@.subrange(from as int, from as int) =~= Seq::<char>::empty());
    while i < to
        invariant
            from <= i <= to <= v@.len(),
            s@ == v@.subrange(from as int, i as int),
        decreases to - i,
    {
        s.push(v[i]);
        assert(v@.subrange(from as int, i + 1) =~= v@.subrange(from as int, i as int).push(v@[i as int]));
        i += 1;
    }
    s
}

/// The views of a sequence of strings.
pub open spec fn views(v: Seq<String>) -> Seq<Seq<char>> {
    v.map_values(|s: String| s@)
}

/// The view of an optional string.
pub open spec fn view_of(s: Option<String>) -> Option<Seq<char>> {
    match s {
        Some(t) => Some(t@),
        None => None,
    }
}

/// Whether two strings hold the same characters.
pub fn same(a: &str, b: &str) -> (r: bool)
    ensures
        r == (a@ == b@),
{
    let x = to_chars(a);
    let y = to_chars(b);
    if x.len() != y.len() {
        return false;
    }
    let mut i: usize = 0;
    while i < x.len()
        invariant
            x@ == a@,
            y@ == b@,
            x@.len() == y@.len(),
            i <= x@.len(),
            forall|j: int| 0 <= j < i ==> x@[j] == y@[j],
        decreases x@.len() - i,
    {
        if x[i] != y[i] {
            assert(a@[i as int] != b@[i as int]);
            return false;
        }
        i += 1;
    }
    assert(a@ =~= b@);
    true
}

/// `a` followed by `b`.
pub fn concat(a: &str, b: &str) -> (r: String)
    ensures
        r@ == a@ + b@,
{
    let mut r = a.to_string();
    r.append(b);
    r
}

/// A copy of a list of strings.
pub fn copy_all(v: &Vec<String>) -> (r: Vec<String>)
    ensures
        r@ == v@,
{
    let mut r: Vec<String> = Vec::new();
    let mut i: usize = 0;
    while i < v.len()
        invariant
            i <= v@.len(),
            r@ == v@.take(i as int),
        decreases v@.len() - i,
    {
        r.push(v[i].clone());
        assert(v@.take(i + 1) =~= v@.take(i as int).push(v@[i as int]));
        i += 1;
    }
    assert(v@.take(v@.len() as int) =~= v@);
    r
}

/// A copy of an optional string.
pub fn copy_opt(s: &Option<String>) -> (r: Option<String>)
    ensures
        r == *s,
{
    match s {
        Some(t) => Some(t.clone()),
        None => None,
    }
}

/// A truth value as it is shown.
pub open spec fn truth(b: bool) -> Seq<char> {
    if b {
        "true"@
    } else {
        "false"@
    }
}

/// A truth value as it is shown.
pub fn show_bool(b: bool) -> (r: &'static str)
    ensures
        r@ == truth(b),
{
    if b {
        "true"
    } else {
        "false"
    }
}

// ── white space ────────────────────────────────────────────────────────

/// The characters with the Unicode `White_Space` property.
pub open spec fn is_space(c: char) -> bool {
    let n = c as int;
    ||| 0x09 <= n <= 0x0d
    ||| n == 0x20
    ||| n == 0x85
    ||| n == 0xa0
    ||| n == 0x1680
    ||| 0x2000 <= n <= 0x200a
    ||| n == 0x2028
    ||| n == 0x2029
    ||| n == 0x202f
    ||| n == 0x205f
    ||| n == 0x3000
}

/// Whether `c` is white space.
pub fn space(c: char) -> (r: bool)
    ensures
        r == is_space(c),
        c == ' ' || c == '\t' || c == '\n' || c == '\r' ==> r,
        '!' <= c <= '~' ==> !r,
        c == '\u{200B}' ==> !r,
        c == '\u{a0}' || c == '\u{3000}' ==> r,
        r <==> c == ' ' || '\t' <= c <= '\r' || c == '\u{85}' || c == '\u{a0}' || c == '\u{1680}'
            || '\u{2000}' <= c <= '\u{200a}' || c == '\u{2028}' || c == '\u{2029}' || c == '\u{202f}'
            || c == '\u{205f}' || c == '\u{3000}',
{
    let n: u32 = c as u32;
    (0x09 <= n && n <= 0x0d) || n == 0x20 || n == 0x85 || n == 0xa0 || n == 0x1680 || (0x2000 <= n
        && n <= 0x200a) || n == 0x2028 || n == 0x2029 || n == 0x202f || n == 0x205f || n == 0x3000
}

/// Nothing but white space, or nothing at all.
pub open spec fn blank(s: Seq<char>) -> bool {
    forall|i: int| 0 <= i < s.len() ==> is_space(#[trigger] s[i])
}

/// `s` without the white space it begins with.
pub open spec fn trimmed_start(s: Seq<char>) -> Seq<char>
    decreases s.len(),
{
    if s.len() > 0 && is_space(s[0]) {
        trimmed_start(s.skip(1))
    } else {
        s
    }
}

/// `s` without the white space it ends in.
pub open spec fn trimmed_end(s: Seq<char>) -> Seq<char>
    decreases s.len(),
{
    if s.len() > 0 && is_space(s.last()) {
        trimmed_end(s.drop_last())
    } else {
        s
    }
}

/// `s` without the white space around it.
pub open spec fn trimmed(s: Seq<char>) -> Seq<char> {
    trimmed_end(trimmed_start(s))
}

/// Whether `s` is blank.
pub fn is_blank(s: &str) -> (r: bool)
    ensures
        r == blank(s@),
{
    let v = to_chars(s);
    let mut i: usize = 0;
    while i < v.len()
        invariant
            v@ == s@,
            i <= v@.len(),
            forall|j: int| 0 <= j < i ==> is_space(#[trigger] s@[j]),
        decreases v@.len() - i,
    {
        if !space(v[i]) {
            assert(!is_space(s@[i as int]));
            return false;
        }
        i += 1;
    }
    true
}

/// The first position from `from` on that holds no white space, or the end.
pub fn skip_space(v: &Vec<char>, from: usize) -> (r: usize)
    requires
        from <= v@.len(),
    ensures
        from <= r <= v@.len(),
        trimmed_start(v@.skip(from as int)) == v@.skip(r as int),
        blank(v@.subrange(from as int, r as int)),
        r < v@.len() ==> !is_space(v@[r as int]),
{
    let mut i: usize = from;
    while i < v.len() && space(v[i])
        invariant
            from <= i <= v@.len(),
            trimmed_start(v@.skip(from as int)) == trimmed_start(v@.skip(i as int)),
            blank(v@.subrange(from as int, i as int)),
        decreases v@.len() - i,
    {
        assert(v@.skip(i as int).skip(1) =~= v@.skip(i + 1));
        assert(v@.skip(i as int)[0] == v@[i as int]);
        assert forall|j: int| 0 <= j < i + 1 - from implies is_space(
            #[trigger] v@.subrange(from as int, i + 1)[j],
        ) by {
            if j < i - from {
                assert(is_space(v@.subrange(from as int, i as int)[j]));
            }
        }
        i += 1;
    }
    assert(i < v@.len() ==> v@.skip(i as int)[0] == v@[i as int]);
    i
}

/// The end of `v` between `from` and `to` once trailing white space is dropped.
pub fn drop_space(v: &Vec<char>, from: usize, to: usize) -> (r: usize)
    requires
        from <= to <= v@.len(),
    ensures
        from <= r <= to,
        trimmed_end(v@.subrange(from as int, to as int)) == v@.subrange(from as int, r as int),
{
    let mut i: usize = to;
    while i > from && space(v[i - 1])
        invariant
            from <= i <= to <= v@.len(),
            trimmed_end(v@.subrange(from as int, to as int)) == trimmed_end(
                v@.subrange(from as int, i as int),
            ),
        decreases i,
    {
        let ghost cur = v@.subrange(from as int, i as int);
        assert(cur.last() == v@[i - 1]);
        assert(cur.drop_last() =~= v@.subrange(from as int, i - 1));
        i -= 1;
    }
    assert(i > from ==> v@.subrange(from as int, i as int).last() == v@[i - 1]);
    i
}

/// `s` without the white space around it.
pub fn trim(s: &str) -> (r: String)
    ensures
        r@ == trimmed(s@),
{
    let v = to_chars(s);
    let a: usize = skip_space(&v, 0);
    let b: usize = drop_space(&v, a, v.len());
    assert(v@.skip(0) =~= v@);
    assert(v@.subrange(a as int, v@.len() as int) =~= v@.skip(a as int));
    slice(&v, a, b)
}

/// Trimming leaves nothing exactly of a blank text.
pub proof fn lemma_trimmed_blank(s: Seq<char>)
    ensures
        blank(s) <==> trimmed(s).len() == 0,
        blank(s) ==> trimmed_start(s).len() == 0,
{
    lemma_trimmed_start(s);
    lemma_trimmed_end(trimmed_start(s));
    let m = trimmed_start(s);
    if blank(s) {
        if m.len() > 0 {
            let k = s.len() - m.len();
            assert(m[0] == s[k]);
            assert(is_space(s[k]));
        }
    } else {
        let i = choose|i: int| 0 <= i < s.len() && !is_space(s[i]);
        if m.len() == 0 {
            assert(s.take(s.len() as int)[i] == s[i]);
        } else if trimmed_end(m).len() == 0 {
            assert(is_space(m.skip(0)[0]));
        }
    }
}

/// What trimming at the start removes is white space, and what is left does
/// not begin with any.
pub proof fn lemma_trimmed_start(s: Seq<char>)
    ensures
        trimmed_start(s).len() <= s.len(),
        trimmed_start(s) == s.skip(s.len() - trimmed_start(s).len()),
        blank(s.take(s.len() - trimmed_start(s).len())),
        trimmed_start(s).len() > 0 ==> !is_space(trimmed_start(s)[0]),
    decreases s.len(),
{
    if s.len() > 0 && is_space(s[0]) {
        let t = s.skip(1);
        lemma_trimmed_start(t);
        let k = s.len() - trimmed_start(s).len();
        assert(t.skip(k - 1) =~= s.skip(k));
        assert forall|i: int| 0 <= i < k implies is_space(#[trigger] s.take(k)[i]) by {
            if i > 0 {
                assert(is_space(t.take(k - 1)[i - 1]));
            }
        }
    } else {
        assert(s.skip(0) =~= s);
    }
}

/// What trimming at the end removes is white space, and what is left does not
/// end in any.
pub proof fn lemma_trimmed_end(s: Seq<char>)
    ensures
        trimmed_end(s).len() <= s.len(),
        trimmed_end(s) == s.take(trimmed_end(s).len() as int),
        blank(s.skip(trimmed_end(s).len() as int)),
        trimmed_end(s).len() > 0 ==> !is_space(trimmed_end(s).last()),
    decreases s.len(),
{
    if s.len() > 0 && is_space(s.last()) {
        let t = s.drop_last();
        lemma_trimmed_end(t);
        let k = trimmed_end(s).len() as int;
        assert(t.take(k) =~= s.take(k));
        assert forall|i: int| 0 <= i < s.len() - k implies is_space(#[trigger] s.skip(k)[i]) by {
            if i < s.len() - k - 1 {
                assert(is_space(t.skip(k)[i]));
            }
        }
    } else {
        assert(s.take(s.len() as int) =~= s);
    }
}

// ── searching and cutting ──────────────────────────────────────────────

/// How many characters stand before the first `c`; all of them if there is none.
pub open spec fn index_of(s: Seq<char>, c: char) -> int
    decreases s.len(),
{
    if s.len() == 0 || s[0] == c {
        0
    } else {
        1 + index_of(s.skip(1), c)
    }
}

/// Whether `t` stands in `s`, letter by letter and without a gap.
pub open spec fn is_piece(t: Seq<char>, s: Seq<char>) -> bool {
    exists|i: int, j: int| 0 <= i <= j <= s.len() && t == #[trigger] s.subrange(i, j)
}

/// A piece of a piece is a piece.
pub proof fn lemma_piece_of_piece(a: Seq<char>, b: Seq<char>, c: Seq<char>)
    requires
        is_piece(a, b),
        is_piece(b, c),
    ensures
        is_piece(a, c),
{
    let (i, j) = choose|i: int, j: int| 0 <= i <= j <= b.len() && a == #[trigger] b.subrange(i, j);
    let (k, l) = choose|k: int, l: int| 0 <= k <= l <= c.len() && b == #[trigger] c.subrange(k, l);
    assert(a =~= c.subrange(k + i, k + j));
}

/// Trimming cuts a piece out.
pub proof fn lemma_trimmed_is_a_piece(s: Seq<char>)
    ensures
        is_piece(trimmed_start(s), s),
        is_piece(trimmed(s), s),
{
    lemma_trimmed_start(s);
    let m = trimmed_start(s);
    lemma_trimmed_end(m);
    let k = s.len() - m.len();
    assert(m =~= s.subrange(k, s.len() as int));
    assert(trimmed(s) =~= s.subrange(k, k + trimmed(s).len()));
}

/// Splitting cuts pieces out.
pub proof fn lemma_split_gives_pieces(s: Seq<char>, c: char, i: int)
    requires
        0 <= i < split(s, c).len(),
    ensures
        is_piece(split(s, c)[i], s),
    decreases s.len(),
{
    lemma_index_of(s, c);
    let k = index_of(s, c);
    if k < s.len() {
        if i == 0 {
            assert(split(s, c)[0] == s.take(k));
            assert(s.take(k) =~= s.subrange(0, k));
        } else {
            let rest = s.skip(k + 1);
            assert(split(s, c)[i] == split(rest, c)[i - 1]);
            lemma_split_gives_pieces(rest, c, i - 1);
            assert(rest =~= s.subrange(k + 1, s.len() as int));
            lemma_piece_of_piece(split(rest, c)[i - 1], rest, s);
        }
    } else {
        assert(s =~= s.subrange(0, s.len() as int));
    }
}

/// A trimmed text begins and ends with something else than white space.
pub proof fn lemma_trimmed_ends(s: Seq<char>)
    requires
        trimmed(s) == s,
        s.len() > 0,
    ensures
        trimmed_start(s) == s,
        !is_space(s[0]),
        !is_space(s.last()),
{
    lemma_trimmed_start(s);
    lemma_trimmed_end(trimmed_start(s));
    assert(trimmed_start(s).len() == s.len());
    assert(trimmed_start(s) =~= s);
}

/// Trimming takes nothing from a text that begins with something else than white
/// space, up to a place that holds something else too.
pub proof fn lemma_trimmed_keeps(s: Seq<char>, i: int)
    requires
        0 <= i < s.len(),
        !is_space(s[0]),
        !is_space(s[i]),
    ensures
        trimmed(s).len() > i,
        trimmed(s).take(i + 1) == s.take(i + 1),
        trimmed(s).is_prefix_of(s),
        i == s.len() - 1 ==> trimmed(s) == s,
{
    assert(trimmed_start(s) == s);
    lemma_trimmed_end(s);
    let k = trimmed_end(s).len() as int;
    if k <= i {
        assert(is_space(s.skip(k)[i - k]));
    }
    assert(trimmed(s).take(i + 1) =~= s.take(i + 1));
    if i == s.len() - 1 {
        assert(trimmed(s) =~= s);
    }
}

/// `index_of` is the first place that holds `c`, or the end.
pub proof fn lemma_index_of(s: Seq<char>, c: char)
    ensures
        0 <= index_of(s, c) <= s.len(),
        forall|j: int| 0 <= j < index_of(s, c) ==> s[j] != c,
        index_of(s, c) < s.len() ==> s[index_of(s, c)] == c,
        s.contains(c) <==> index_of(s, c) < s.len(),
    decreases s.len(),
{
    if s.len() > 0 && s[0] != c {
        let t = s.skip(1);
        lemma_index_of(t, c);
        assert forall|j: int| 0 <= j < index_of(s, c) implies s[j] != c by {
            if j > 0 {
                assert(s[j] == t[j - 1]);
            }
        }
        if s.contains(c) {
            let k = choose|k: int| 0 <= k < s.len() && s[k] == c;
            assert(t[k - 1] == c);
        }
    }
}

/// What `index_of` is, told by what stands where.
pub proof fn lemma_index_of_is(s: Seq<char>, c: char, i: int)
    requires
        0 <= i <= s.len(),
        forall|j: int| 0 <= j < i ==> s[j] != c,
        i < s.len() ==> s[i] == c,
    ensures
        index_of(s, c) == i,
{
    lemma_index_of(s, c);
    let k = index_of(s, c);
    if k < i {
        assert(s[k] != c);
    }
}

/// Where `c` first stands at or after `from`, as a count from the start.
pub fn find_char(v: &Vec<char>, from: usize, to: usize, c: char) -> (r: usize)
    requires
        from <= to <= v@.len(),
    ensures
        from <= r <= to,
        r - from == index_of(v@.subrange(from as int, to as int), c),
{
    let mut i: usize = from;
    while i < to && v[i] != c
        invariant
            from <= i <= to <= v@.len(),
            forall|j: int| from <= j < i ==> v@[j] != c,
        decreases to - i,
    {
        i += 1;
    }
    proof {
        lemma_index_of_is(v@.subrange(from as int, to as int), c, i - from);
    }
    i
}

/// Whether `s` begins with `prefix`.
pub fn starts_with(s: &str, prefix: &str) -> (r: bool)
    ensures
        r == prefix@.is_prefix_of(s@),
{
    let v = to_chars(s);
    let p = to_chars(prefix);
    matches_at(&v, &p, 0)
}

/// Whether `p` stands in `v` at `at`.
pub fn matches_at(v: &Vec<char>, p: &Vec<char>, at: usize) -> (r: bool)
    requires
        at <= v@.len(),
    ensures
        r == p@.is_prefix_of(v@.skip(at as int)),
{
    let n: usize = v.len();
    if p.len() > n - at {
        return false;
    }
    let mut i: usize = 0;
    while i < p.len()
        invariant
            n == v@.len(),
            at <= v@.len(),
            p@.len() <= v@.len() - at,
            i <= p@.len(),
            forall|j: int| 0 <= j < i ==> p@[j] == v@[at + j],
        decreases p@.len() - i,
    {
        if p[i] != v[at + i] {
            assert(v@.skip(at as int)[i as int] != p@[i as int]);
            assert(v@.skip(at as int).take(p@.len() as int)[i as int] != p@[i as int]);
            return false;
        }
        i += 1;
    }
    assert(v@.skip(at as int).take(p@.len() as int) =~= p@);
    true
}

/// What follows `prefix` in `s`, where `s` begins with it.
pub fn strip_prefix(s: &str, prefix: &str) -> (r: Option<String>)
    ensures
        match r {
            Some(t) => prefix@.is_prefix_of(s@) && t@ == s@.skip(prefix@.len() as int),
            None => !prefix@.is_prefix_of(s@),
        },
{
    if !starts_with(s, prefix) {
        return None;
    }
    let v = to_chars(s);
    let p = to_chars(prefix);
    assert(v@.subrange(p@.len() as int, v@.len() as int) =~= s@.skip(prefix@.len() as int));
    Some(slice(&v, p.len(), v.len()))
}

/// Whether `p` stands in `s` at `i`.
pub open spec fn occurs_at(s: Seq<char>, p: Seq<char>, i: int) -> bool {
    0 <= i <= s.len() && p.is_prefix_of(s.skip(i))
}

/// Whether `p` stands anywhere in `s`.
pub open spec fn contains_text(s: Seq<char>, p: Seq<char>) -> bool {
    exists|i: int| occurs_at(s, p, i)
}

/// The first place at or after `from` where `p` stands in `v`.
pub fn find_text(v: &Vec<char>, p: &Vec<char>, from: usize) -> (r: Option<usize>)
    requires
        from <= v@.len(),
    ensures
        match r {
            Some(i) => from <= i && occurs_at(v@, p@, i as int) && i + p@.len() <= v@.len()
                && forall|j: int| from <= j < i ==> !#[trigger] occurs_at(v@, p@, j),
            None => forall|j: int| from <= j ==> !#[trigger] occurs_at(v@, p@, j),
        },
{
    let mut i: usize = from;
    loop
        invariant
            from <= i <= v@.len(),
            forall|j: int| from <= j < i ==> !#[trigger] occurs_at(v@, p@, j),
        decreases v@.len() - i,
    {
        if matches_at(v, p, i) {
            return Some(i);
        }
        assert(!occurs_at(v@, p@, i as int));
        if i == v.len() {
            return None;
        }
        i += 1;
    }
}

/// Whether `p` stands anywhere in `s`.
pub fn contains(s: &str, p: &str) -> (r: bool)
    ensures
        r == contains_text(s@, p@),
{
    let v = to_chars(s);
    let w = to_chars(p);
    match find_text(&v, &w, 0) {
        Some(i) => {
            assert(occurs_at(s@, p@, i as int));
            true
        },
        None => false,
    }
}

/// `s` with each `from` replaced by `to`, left to right, none of them
/// overlapping.
pub open spec fn replaced(s: Seq<char>, from: Seq<char>, to: Seq<char>) -> Seq<char>
    decreases s.len(),
{
    if from.len() == 0 || s.len() == 0 {
        s
    } else if from.is_prefix_of(s) {
        to + replaced(s.skip(from.len() as int), from, to)
    } else {
        seq![s[0]] + replaced(s.skip(1), from, to)
    }
}

/// `s` with each `from` replaced by `to`.
pub fn replace(s: &str, from: &str, to: &str) -> (r: String)
    ensures
        r@ == replaced(s@, from@, to@),
{
    let v = to_chars(s);
    let f = to_chars(from);
    let mut out = String::new();
    if f.len() == 0 {
        return s.to_string();
    }
    let mut i: usize = 0;
    assert(s@.skip(0) =~= s@);
    while i < v.len()
        invariant
            v@ == s@,
            f@ == from@,
            f@.len() > 0,
            i <= v@.len(),
            out@ + replaced(s@.skip(i as int), from@, to@) == replaced(s@, from@, to@),
        decreases v@.len() - i,
    {
        let ghost rest = s@.skip(i as int);
        let ghost before = out@;
        if matches_at(&v, &f, i) {
            out.append(to);
            assert(rest.skip(f@.len() as int) =~= s@.skip(i + f@.len()));
            assert(out@ + replaced(s@.skip(i + f@.len()), from@, to@) =~= before + (to@ + replaced(
                s@.skip(i + f@.len()),
                from@,
                to@,
            )));
            i += f.len();
        } else {
            out.push(v[i]);
            assert(rest.skip(1) =~= s@.skip(i + 1));
            assert(rest[0] == v@[i as int]);
            assert(out@ + replaced(s@.skip(i + 1), from@, to@) =~= before + (seq![rest[0]]
                + replaced(s@.skip(i + 1), from@, to@)));
            i += 1;
        }
    }
    assert(s@.skip(i as int) =~= Seq::empty());
    assert(out@ + Seq::<char>::empty() =~= out@);
    out
}

/// The pieces of `s` between the `c`s, in order; one piece if there is no `c`.
pub open spec fn split(s: Seq<char>, c: char) -> Seq<Seq<char>>
    decreases s.len(),
{
    let i = index_of(s, c);
    if 0 <= i < s.len() {
        seq![s.take(i)] + split(s.skip(i + 1), c)
    } else {
        seq![s]
    }
}

/// The pieces of two texts with a `c` between them are those of the one and then
/// those of the other.
pub proof fn lemma_split_joined(a: Seq<char>, b: Seq<char>, c: char)
    ensures
        split(a + seq![c] + b, c) == split(a, c) + split(b, c),
    decreases a.len(),
{
    let s = a + seq![c] + b;
    lemma_index_of(a, c);
    let i = index_of(a, c);
    assert forall|j: int| 0 <= j < i implies s[j] != c by {
        assert(s[j] == a[j]);
    }
    lemma_index_of_is(s, c, i);
    assert(s.take(i) =~= a.take(i));
    if i < a.len() {
        let rest = a.skip(i + 1);
        lemma_split_joined(rest, b, c);
        assert(s.skip(i + 1) =~= rest + seq![c] + b);
        assert(split(s, c) =~= split(a, c) + split(b, c));
    } else {
        assert(s.skip(i + 1) =~= b);
        assert(a.take(i) =~= a);
        assert(split(s, c) =~= split(a, c) + split(b, c));
    }
}

/// The pieces of `s` between the `c`s.
pub fn split_on(s: &str, c: char) -> (r: Vec<String>)
    ensures
        views(r@) == split(s@, c),
{
    let v = to_chars(s);
    let mut out: Vec<String> = Vec::new();
    let mut i: usize = 0;
    assert(s@.skip(0) =~= s@);
    assert(views(out@) + split(s@, c) =~= split(s@, c));
    loop
        invariant
            v@ == s@,
            i <= v@.len(),
            views(out@) + split(s@.skip(i as int), c) == split(s@, c),
        decreases v@.len() - i,
    {
        let ghost rest = s@.skip(i as int);
        let ghost before = views(out@);
        let k: usize = find_char(&v, i, v.len(), c);
        assert(v@.subrange(i as int, v@.len() as int) =~= rest);
        out.push(slice(&v, i, k));
        assert(v@.subrange(i as int, k as int) =~= rest.take(k - i));
        assert(views(out@) =~= before.push(rest.take(k - i)));
        if k == v.len() {
            assert(rest.take(k - i) =~= rest);
            assert(views(out@) =~= before + split(rest, c));
            return out;
        }
        assert(rest.skip(k - i + 1) =~= s@.skip(k + 1));
        assert(views(out@) + split(s@.skip(k + 1), c) =~= before + split(rest, c));
        i = k + 1;
    }
}

/// `parts` in order with `sep` between each two.
pub open spec fn joined(parts: Seq<Seq<char>>, sep: Seq<char>) -> Seq<char>
    decreases parts.len(),
{
    if parts.len() == 0 {
        Seq::empty()
    } else if parts.len() == 1 {
        parts[0]
    } else {
        joined(parts.drop_last(), sep) + sep + parts.last()
    }
}

/// Pieces that hold no `c`, joined by it and split at it again, are what they were.
pub proof fn lemma_split_undoes_joined(parts: Seq<Seq<char>>, c: char)
    requires
        parts.len() > 0,
        forall|i: int| 0 <= i < parts.len() ==> !(#[trigger] parts[i]).contains(c),
    ensures
        split(joined(parts, seq![c]), c) == parts,
    decreases parts.len(),
{
    let last = parts.last();
    lemma_index_of(last, c);
    assert(split(last, c) =~= seq![last]);
    if parts.len() > 1 {
        let front = parts.drop_last();
        assert forall|i: int| 0 <= i < front.len() implies !(#[trigger] front[i]).contains(c) by {
            assert(!parts[i].contains(c));
        }
        lemma_split_undoes_joined(front, c);
        lemma_split_joined(joined(front, seq![c]), last, c);
    }
    assert(split(joined(parts, seq![c]), c) =~= parts);
}

/// `parts` in order with `sep` between each two.
pub fn join(parts: &Vec<String>, sep: &str) -> (r: String)
    ensures
        r@ == joined(views(parts@), sep@),
{
    let mut out = String::new();
    let mut i: usize = 0;
    assert(views(parts@).take(0) =~= Seq::empty());
    while i < parts.len()
        invariant
            i <= parts@.len(),
            out@ == joined(views(parts@).take(i as int), sep@),
        decreases parts@.len() - i,
    {
        let ghost all = views(parts@);
        assert(all.take(i + 1).drop_last() =~= all.take(i as int));
        assert(all.take(i + 1).last() == parts@[i as int]@);
        if i > 0 {
            out.append(sep);
        }
        let ghost so_far = out@;
        out.append(parts[i].as_str());
        assert(Seq::<char>::empty() + parts@[i as int]@ =~= parts@[i as int]@);
        assert(so_far + parts@[i as int]@ =~= out@);
        i += 1;
    }
    assert(views(parts@).take(i as int) =~= views(parts@));
    out
}

/// `s` without the `c`s it ends in.
pub open spec fn without_trailing(s: Seq<char>, c: char) -> Seq<char>
    decreases s.len(),
{
    if s.len() > 0 && s.last() == c {
        without_trailing(s.drop_last(), c)
    } else {
        s
    }
}

/// `s` without the `c`s it ends in.
pub fn trim_trailing(s: &str, c: char) -> (r: String)
    ensures
        r@ == without_trailing(s@, c),
{
    let v = to_chars(s);
    let mut i: usize = v.len();
    assert(v@.take(i as int) =~= v@);
    while i > 0 && v[i - 1] == c
        invariant
            i <= v@.len(),
            without_trailing(v@, c) == without_trailing(v@.take(i as int), c),
        decreases i,
    {
        assert(v@.take(i as int).last() == c);
        assert(v@.take(i as int).drop_last() =~= v@.take(i - 1));
        i -= 1;
    }
    assert(i > 0 ==> v@.take(i as int).last() == v@[i - 1]);
    assert(v@.subrange(0, i as int) =~= v@.take(i as int));
    slice(&v, 0, i)
}

// ── case ───────────────────────────────────────────────────────────────

/// An ASCII letter in lower case; any other character as it is.
pub open spec fn lower(c: char) -> char {
    if 'A' <= c <= 'Z' {
        ((c as u32) + 32) as char
    } else {
        c
    }
}

/// `s` with its ASCII letters in lower case.
pub open spec fn lowered(s: Seq<char>) -> Seq<char> {
    s.map_values(|c: char| lower(c))
}

/// An ASCII letter in lower case.
pub fn lower_char(c: char) -> (r: char)
    ensures
        r == lower(c),
        'A' <= c <= 'Z' ==> r as int == c as int + 32,
        !('A' <= c <= 'Z') ==> r == c,
{
    if 'A' <= c && c <= 'Z' {
        (((c as u32) as u8) + 32) as char
    } else {
        c
    }
}

/// `s` with its ASCII letters in lower case.
pub fn to_lower(s: &str) -> (r: String)
    ensures
        r@ == lowered(s@),
{
    let v = to_chars(s);
    let mut out = String::new();
    let mut i: usize = 0;
    while i < v.len()
        invariant
            v@ == s@,
            i <= v@.len(),
            out@ == lowered(s@.take(i as int)),
        decreases v@.len() - i,
    {
        out.push(lower_char(v[i]));
        assert(lowered(s@.take(i + 1)) =~= lowered(s@.take(i as int)).push(lower(s@[i as int])));
        i += 1;
    }
    assert(s@.take(i as int) =~= s@);
    out
}

// ── numbers ────────────────────────────────────────────────────────────

/// A decimal digit.
pub open spec fn is_digit(c: char) -> bool {
    '0' <= c <= '9'
}

/// Nothing but decimal digits.
pub open spec fn all_digits(s: Seq<char>) -> bool {
    forall|i: int| 0 <= i < s.len() ==> is_digit(#[trigger] s[i])
}

/// The number that a row of digits writes.
pub open spec fn value(s: Seq<char>) -> nat
    decreases s.len(),
{
    if s.len() == 0 {
        0
    } else {
        (10 * value(s.drop_last()) + (s.last() as nat - '0' as nat)) as nat
    }
}

/// The digit for a number below ten.
pub open spec fn digit(n: nat) -> char {
    (('0' as nat) + n) as char
}

/// `n` in decimal.
pub open spec fn decimal(n: nat) -> Seq<char>
    decreases n,
{
    if n < 10 {
        seq![digit(n)]
    } else {
        decimal(n / 10).push(digit(n % 10))
    }
}

/// `n` in decimal, with a sign if it is negative.
pub open spec fn decimal_int(n: int) -> Seq<char> {
    if n < 0 {
        seq!['-'] + decimal((-n) as nat)
    } else {
        decimal(n as nat)
    }
}

/// Decimal writes digits, at least one, and they read back as the number.
pub proof fn lemma_decimal(n: nat)
    ensures
        decimal(n).len() > 0,
        all_digits(decimal(n)),
        value(decimal(n)) == n,
    decreases n,
{
    reveal_with_fuel(value, 2);
    if n >= 10 {
        lemma_decimal(n / 10);
        assert(decimal(n).drop_last() =~= decimal(n / 10));
        assert forall|i: int| 0 <= i < decimal(n).len() implies is_digit(
            #[trigger] decimal(n)[i],
        ) by {
            if i < decimal(n).len() - 1 {
                assert(decimal(n)[i] == decimal(n / 10)[i]);
            }
        }
    } else {
        assert(decimal(n).drop_last() =~= Seq::empty());
    }
}

/// Different numbers are written differently.
pub proof fn lemma_decimal_injective(a: nat, b: nat)
    requires
        decimal(a) == decimal(b),
    ensures
        a == b,
{
    lemma_decimal(a);
    lemma_decimal(b);
}

/// A row of digits only grows in value when more digits follow.
proof fn lemma_value_prefix(s: Seq<char>, i: int)
    requires
        all_digits(s),
        0 <= i <= s.len(),
    ensures
        value(s.take(i)) <= value(s),
    decreases s.len() - i,
{
    if i < s.len() {
        lemma_value_prefix(s, i + 1);
        assert(s.take(i + 1).drop_last() =~= s.take(i));
        assert(s.take(i + 1).last() == s[i]);
        assert(is_digit(s[i]));
    } else {
        assert(s.take(i) =~= s);
    }
}

/// What an unsigned number up to `max` may look like, and what it says: digits,
/// at least one, after an optional plus sign.
pub open spec fn read_unsigned(s: Seq<char>, max: nat) -> Option<nat> {
    let body = if s.len() > 0 && s[0] == '+' {
        s.skip(1)
    } else {
        s
    };
    if body.len() > 0 && all_digits(body) && value(body) <= max {
        Some(value(body))
    } else {
        None
    }
}

/// What a signed 64-bit number may look like, and what it says: digits, at
/// least one, after an optional sign.
pub open spec fn read_signed(s: Seq<char>) -> Option<int> {
    if s.len() > 0 && s[0] == '-' {
        let body = s.skip(1);
        if body.len() > 0 && all_digits(body) && value(body) <= 0x8000_0000_0000_0000 {
            Some(-(value(body) as int))
        } else {
            None
        }
    } else {
        match read_unsigned(s, 0x7fff_ffff_ffff_ffff) {
            Some(n) => Some(n as int),
            None => None,
        }
    }
}

/// The value of the digits of `v` from `from` on, no more than `max`.
fn digits_at(v: &Vec<char>, from: usize, max: u64) -> (r: Option<u64>)
    requires
        from <= v@.len(),
    ensures
        ({
            let body = v@.skip(from as int);
            match r {
                Some(n) => body.len() > 0 && all_digits(body) && n == value(body) && n <= max,
                None => body.len() == 0 || !all_digits(body) || value(body) > max,
            }
        }),
{
    let ghost body = v@.skip(from as int);
    if from == v.len() {
        return None;
    }
    let mut n: u64 = 0;
    let mut i: usize = from;
    assert(body.take(0) =~= Seq::empty());
    while i < v.len()
        invariant
            body == v@.skip(from as int),
            from <= i <= v@.len(),
            n == value(body.take(i - from)),
            n <= max,
            forall|j: int| 0 <= j < i - from ==> is_digit(#[trigger] body[j]),
        decreases v@.len() - i,
    {
        let c = v[i];
        assert(body[i - from] == c);
        if !('0' <= c && c <= '9') {
            assert(!is_digit(body[i - from]));
            return None;
        }
        let d: u64 = (c as u32 - '0' as u32) as u64;
        assert(body.take(i - from + 1).drop_last() =~= body.take(i - from));
        assert(body.take(i - from + 1).last() == c);
        assert(value(body.take(i - from + 1)) == 10 * n + d);
        if n > max / 10 || d > max - 10 * n {
            proof {
                if all_digits(body) {
                    lemma_value_prefix(body, i - from + 1);
                }
            }
            return None;
        }
        n = 10 * n + d;
        i += 1;
    }
    assert(body.take(i - from) =~= body);
    Some(n)
}

/// Reads an unsigned number no larger than `max`.
pub fn parse_unsigned(s: &str, max: u64) -> (r: Option<u64>)
    ensures
        match r {
            Some(n) => read_unsigned(s@, max as nat) == Some(n as nat),
            None => read_unsigned(s@, max as nat) is None,
        },
{
    let v = to_chars(s);
    let from: usize = if v.len() > 0 && v[0] == '+' {
        1
    } else {
        0
    };
    assert(v@.skip(0) =~= v@);
    digits_at(&v, from, max)
}

/// Reads a signed number.
pub fn parse_signed(s: &str) -> (r: Option<i64>)
    ensures
        match r {
            Some(n) => read_signed(s@) == Some(n as int),
            None => read_signed(s@) is None,
        },
{
    let v = to_chars(s);
    if v.len() > 0 && v[0] == '-' {
        return match digits_at(&v, 1, 0x8000_0000_0000_0000) {
            Some(n) => if n == 0x8000_0000_0000_0000 {
                Some(i64::MIN)
            } else {
                Some(-(n as i64))
            },
            None => None,
        };
    }
    match parse_unsigned(s, 0x7fff_ffff_ffff_ffff) {
        Some(n) => Some(n as i64),
        None => None,
    }
}

/// Appends `n` in decimal.
pub fn push_decimal(out: &mut String, n: u128)
    ensures
        final(out)@ == old(out)@ + decimal(n as nat),
    decreases n,
{
    let last: u8 = (n % 10) as u8;
    if n >= 10 {
        push_decimal(out, n / 10);
    }
    let c: char = (('0' as u8) + last) as char;
    out.push(c);
    assert(out@ =~= old(out)@ + decimal(n as nat));
}

/// `n` in decimal.
pub fn show(n: u64) -> (r: String)
    ensures
        r@ == decimal(n as nat),
{
    let mut out = String::new();
    push_decimal(&mut out, n as u128);
    assert(Seq::<char>::empty() + decimal(n as nat) =~= decimal(n as nat));
    out
}

/// `n` in decimal, with a sign if it is negative.
pub fn show_signed(n: i64) -> (r: String)
    ensures
        r@ == decimal_int(n as int),
{
    let mut out = String::new();
    if n < 0 {
        out.push('-');
        assert(out@ =~= seq!['-']);
        push_decimal(&mut out, (-(n as i128)) as u128);
    } else {
        push_decimal(&mut out, n as u128);
        assert(Seq::<char>::empty() + decimal(n as nat) =~= decimal(n as nat));
    }
    out
}

/// A number written in decimal reads back as itself.
pub proof fn lemma_decimal_reads_back(n: nat, max: nat)
    requires
        n <= max,
    ensures
        read_unsigned(decimal(n), max) == Some(n),
{
    lemma_decimal(n);
    assert(is_digit(decimal(n)[0]));
}

/// How optional texts, lists of texts and truth values are seen.
pub proof fn lemma_views(s: String, v: Seq<String>, i: int)
    ensures
        view_of(Some(s)) == Some(s@),
        view_of(None) is None,
        views(v).len() == v.len(),
        0 <= i < v.len() ==> views(v)[i] == v[i]@,
        truth(true) == "true"@,
        truth(false) == "false"@,
{
}

/// Lower case keeps the length, and changes the letters A to Z alone.
pub proof fn lemma_lowered(s: Seq<char>, i: int)
    requires
        0 <= i < s.len(),
    ensures
        lowered(s).len() == s.len(),
        'A' <= s[i] <= 'Z' ==> lowered(s)[i] as int == s[i] as int + 32,
        !('A' <= s[i] <= 'Z') ==> lowered(s)[i] == s[i],
        lowered(lowered(s)) == lowered(s),
{
    assert(lowered(lowered(s)) =~= lowered(s));
}

/// Of three texts in a row, the first comes off, then the second, then the third is left.
proof fn lemma_rows_of_texts(a: Seq<char>, from: Seq<char>, b: Seq<char>)
    ensures
        from.is_prefix_of((a + from + b).skip(a.len() as int)),
        (from + b).skip(from.len() as int) == b,
        a.len() == 0 ==> a + from + b == from + b,
        a.len() > 0 ==> (a + from + b).skip(1) == a.skip(1) + from + b && (a + from + b)[0] == a[0],
{
    let s = a + from + b;
    assert(s.skip(a.len() as int).take(from.len() as int) =~= from);
    assert((from + b).skip(from.len() as int) =~= b);
    if a.len() == 0 {
        assert(s =~= from + b);
    } else {
        assert(s.skip(1) =~= a.skip(1) + from + b);
    }
}

/// A text holds what stands in it, and replacing changes that and goes on behind it.
#[verifier::spinoff_prover]
#[verifier::rlimit(40)]
pub proof fn lemma_replaced(a: Seq<char>, from: Seq<char>, b: Seq<char>, to: Seq<char>)
    requires
        from.len() > 0,
        forall|i: int|
            0 <= i < a.len() ==> !(#[trigger] from.is_prefix_of((a + from + b).skip(i))),
    ensures
        contains_text(a + from + b, from),
        replaced(a + from + b, from, to) == a + to + replaced(b, from, to),
    decreases a.len(),
{
    let s = a + from + b;
    let rest = to + replaced(b, from, to);
    lemma_rows_of_texts(a, from, b);
    assert(occurs_at(s, from, a.len() as int));
    assert(s.skip(0) =~= s);
    if a.len() == 0 {
        assert(from.is_prefix_of(s));
        assert(s.skip(from.len() as int) == b);
        assert(replaced(s, from, to) == rest);
        assert(rest =~= a + to + replaced(b, from, to));
    } else {
        assert(!from.is_prefix_of(s.skip(0)));
        let t = a.skip(1);
        let u = t + from + b;
        assert(s.skip(1) == u);
        assert forall|i: int| 0 <= i < t.len() implies !(#[trigger] from.is_prefix_of(u.skip(i))) by {
            assert(u.skip(i) =~= s.skip(i + 1));
            assert(!from.is_prefix_of(s.skip(i + 1)));
        }
        lemma_replaced(t, from, b, to);
        assert(replaced(s, from, to) == seq![a[0]] + replaced(u, from, to));
        assert(t + to + replaced(b, from, to) =~= t + rest);
        assert(seq![a[0]] + (t + rest) =~= a + rest);
        assert(a + rest =~= a + to + replaced(b, from, to));
    }
}

/// Where there is nothing to replace, nothing changes.
pub proof fn lemma_nothing_replaced(s: Seq<char>, from: Seq<char>, to: Seq<char>)
    requires
        forall|i: int| 0 <= i < s.len() ==> !(#[trigger] from.is_prefix_of(s.skip(i))),
    ensures
        replaced(s, from, to) == s,
    decreases s.len(),
{
    if s.len() > 0 && from.len() > 0 {
        assert(s.skip(0) =~= s);
        assert(!from.is_prefix_of(s.skip(0)));
        let t = s.skip(1);
        assert forall|i: int| 0 <= i < t.len() implies !(#[trigger] from.is_prefix_of(t.skip(i))) by {
            assert(t.skip(i) =~= s.skip(i + 1));
            assert(!from.is_prefix_of(s.skip(i + 1)));
        }
        lemma_nothing_replaced(t, from, to);
        assert(replaced(s, from, to) =~= s);
    }
}

/// A number below zero is written with a dash and what it is without it.
pub proof fn lemma_signed_numbers(n: nat)
    ensures
        decimal_int(n as int) == decimal(n),
        n > 0 ==> decimal_int(-(n as int)) == seq!['-'] + decimal(n),
        n < 10 ==> decimal(n) == seq![(0x30 + n) as char],
        n >= 10 ==> decimal(n) == decimal(n / 10) + seq![(0x30 + n % 10) as char],
{
    if n >= 10 {
        assert(decimal(n) =~= decimal(n / 10) + seq![(0x30 + n % 10) as char]);
    }
}

/// A number that was written down, with or without its dash, is read back.
pub proof fn lemma_signed_are_read_back(n: nat)
    requires
        n <= 0x7fff_ffff_ffff_ffff,
    ensures
        read_signed(decimal(n)) == Some(n as int),
        read_signed(seq!['-'] + decimal(n)) == Some(-(n as int)),
{
    lemma_decimal(n);
    let s = seq!['-'] + decimal(n);
    assert(s.skip(1) =~= decimal(n));
    assert(is_digit(decimal(n)[0]));
}

/// What a text contains is one of its pieces, and the other way round.
pub proof fn lemma_contained(s: Seq<char>, p: Seq<char>, i: int)
    ensures
        0 <= i && i + p.len() <= s.len() && s.subrange(i, i + p.len()) == p ==> contains_text(s, p),
        contains_text(s, p) ==> exists|k: int|
            0 <= k && k + p.len() <= s.len() && #[trigger] s.subrange(k, k + p.len()) == p,
{
    if 0 <= i && i + p.len() <= s.len() && s.subrange(i, i + p.len()) == p {
        assert(s.skip(i).take(p.len() as int) =~= p);
        assert(occurs_at(s, p, i));
    }
    if contains_text(s, p) {
        let k = choose|k: int| occurs_at(s, p, k);
        assert(s.subrange(k, k + p.len()) =~= p);
    }
}

} // verus!
