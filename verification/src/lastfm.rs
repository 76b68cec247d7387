//! The scrobbling service: signing calls, judging replies, and when a play
//! counts.

use vstd::prelude::*;
use crate::order;
use crate::outside;
use crate::text;

verus! {

/// Where the API lives.
pub const BASE: &'static str = "https://ws.audioscrobbler.com/2.0/";

// ── album art ──────────────────────────────────────────────────────────

/// An image the service offers, and the name of its size.
#[derive(Debug, PartialEq, Eq)]
pub struct Image {
    pub url: String,
    pub size: String,
}

/// An image with an address.
pub open spec fn is_usable(i: Image) -> bool {
    !text::blank(i.url@)
}

/// The first image of a size that has an address.
pub open spec fn first_of_size(images: Seq<Image>, want: Seq<char>) -> Option<Seq<char>>
    decreases images.len(),
{
    if images.len() == 0 {
        None
    } else if images[0].size@ == want && is_usable(images[0]) {
        Some(images[0].url@)
    } else {
        first_of_size(images.skip(1), want)
    }
}

/// The first image that has an address.
pub open spec fn first_usable(images: Seq<Image>) -> Option<Seq<char>>
    decreases images.len(),
{
    if images.len() == 0 {
        None
    } else if is_usable(images[0]) {
        Some(images[0].url@)
    } else {
        first_usable(images.skip(1))
    }
}

/// The largest image with an address among the sizes worth having, or else any.
pub open spec fn best_of(images: Seq<Image>) -> Option<Seq<char>> {
    let xl = first_of_size(images, "extralarge"@);
    let l = first_of_size(images, "large"@);
    let m = first_of_size(images, "medium"@);
    if xl is Some {
        xl
    } else if l is Some {
        l
    } else if m is Some {
        m
    } else {
        first_usable(images)
    }
}

fn find_size(images: &Vec<Image>, want: Option<&str>) -> (r: Option<String>)
    ensures
        text::view_of(r) == (match want {
            Some(w) => first_of_size(images@, w@),
            None => first_usable(images@),
        }),
{
    let mut i: usize = 0;
    assert(images@.skip(0) =~= images@);
    while i < images.len()
        invariant
            i <= images@.len(),
            (match want {
                Some(w) => first_of_size(images@, w@),
                None => first_usable(images@),
            }) == (match want {
                Some(w) => first_of_size(images@.skip(i as int), w@),
                None => first_usable(images@.skip(i as int)),
            }),
        decreases images@.len() - i,
    {
        assert(images@.skip(i as int)[0] == images@[i as int]);
        assert(images@.skip(i as int).skip(1) =~= images@.skip(i + 1));
        let right_size = match want {
            Some(w) => text::same(images[i].size.as_str(), w),
            None => true,
        };
        if right_size && !text::is_blank(images[i].url.as_str()) {
            return Some(images[i].url.clone());
        }
        i += 1;
    }
    None
}

/// The first usable image of a size is the one taken of that size.
pub proof fn lemma_first_of_size(images: Seq<Image>, want: Seq<char>, i: int)
    requires
        0 <= i < images.len(),
        images[i].size@ == want,
        !text::blank(images[i].url@),
        forall|j: int|
            0 <= j < i ==> (#[trigger] images[j]).size@ != want || text::blank(images[j].url@),
    ensures
        first_of_size(images, want) == Some(images[i].url@),
    decreases i,
{
    if i > 0 {
        assert(images[0].size@ != want || text::blank(images[0].url@));
        let rest = images.skip(1);
        assert forall|j: int| 0 <= j < i - 1 implies (#[trigger] rest[j]).size@ != want
            || text::blank(rest[j].url@) by {
            assert(images[j + 1].size@ != want || text::blank(images[j + 1].url@));
        }
        lemma_first_of_size(rest, want, i - 1);
    }
}

/// Where no usable image has a size, none is taken of it.
pub proof fn lemma_none_of_size(images: Seq<Image>, want: Seq<char>)
    requires
        forall|j: int|
            0 <= j < images.len() ==> (#[trigger] images[j]).size@ != want || text::blank(
                images[j].url@,
            ),
    ensures
        first_of_size(images, want) is None,
    decreases images.len(),
{
    if images.len() > 0 {
        assert(images[0].size@ != want || text::blank(images[0].url@));
        let rest = images.skip(1);
        assert forall|j: int| 0 <= j < rest.len() implies (#[trigger] rest[j]).size@ != want
            || text::blank(rest[j].url@) by {
            assert(images[j + 1].size@ != want || text::blank(images[j + 1].url@));
        }
        lemma_none_of_size(rest, want);
    }
}

/// Larger sizes go first, whatever the order they come in; of no known size, the
/// first usable one; and of none usable, none.
pub proof fn lemma_larger_images_go_first(images: Seq<Image>)
    ensures
        first_of_size(images, "extralarge"@) is Some ==> best_of(images) == first_of_size(
            images,
            "extralarge"@,
        ),
        first_of_size(images, "extralarge"@) is None && first_of_size(images, "large"@) is Some
            ==> best_of(images) == first_of_size(images, "large"@),
        first_of_size(images, "extralarge"@) is None && first_of_size(images, "large"@) is None
            && first_of_size(images, "medium"@) is Some ==> best_of(images) == first_of_size(
            images,
            "medium"@,
        ),
        best_of(images) is None ==> forall|j: int|
            0 <= j < images.len() ==> text::blank((#[trigger] images[j]).url@),
        best_of(images) is Some ==> !text::blank(best_of(images)->0) && exists|j: int|
            0 <= j < images.len() && (#[trigger] images[j]).url@ == best_of(images)->0,
{
    lemma_first_is_listed(images, "extralarge"@);
    lemma_first_is_listed(images, "large"@);
    lemma_first_is_listed(images, "medium"@);
}

proof fn lemma_first_is_listed(images: Seq<Image>, want: Seq<char>)
    ensures
        first_of_size(images, want) is Some ==> !text::blank(first_of_size(images, want)->0)
            && exists|j: int|
            0 <= j < images.len() && (#[trigger] images[j]).url@ == first_of_size(images, want)->0,
        first_usable(images) is Some ==> !text::blank(first_usable(images)->0) && exists|j: int|
            0 <= j < images.len() && (#[trigger] images[j]).url@ == first_usable(images)->0,
        first_usable(images) is None ==> forall|j: int|
            0 <= j < images.len() ==> text::blank((#[trigger] images[j]).url@),
    decreases images.len(),
{
    if images.len() > 0 {
        let rest = images.skip(1);
        lemma_first_is_listed(rest, want);
        assert forall|j: int| 0 <= j < rest.len() implies #[trigger] rest[j] == images[j + 1] by {}
        if first_of_size(images, want) is Some {
            if images[0].size@ == want && is_usable(images[0]) {
                assert(images[0].url@ == first_of_size(images, want)->0);
            } else {
                let j = choose|j: int|
                    0 <= j < rest.len() && (#[trigger] rest[j]).url@ == first_of_size(
                        rest,
                        want,
                    )->0;
                assert(images[j + 1].url@ == first_of_size(images, want)->0);
            }
        }
        if first_usable(images) is Some {
            if is_usable(images[0]) {
                assert(images[0].url@ == first_usable(images)->0);
            } else {
                let j = choose|j: int|
                    0 <= j < rest.len() && (#[trigger] rest[j]).url@ == first_usable(rest)->0;
                assert(images[j + 1].url@ == first_usable(images)->0);
            }
        } else {
            assert forall|j: int| 0 <= j < images.len() implies text::blank(
                (#[trigger] images[j]).url@,
            ) by {
                if j > 0 {
                    assert(text::blank(rest[j - 1].url@));
                }
            }
        }
    }
}

/// The address of the image to show. Sizes are offered with blank addresses;
/// those are skipped.
pub fn best_image(images: &Vec<Image>) -> (r: Option<String>)
    ensures
        text::view_of(r) == best_of(images@),
{
    if let Some(u) = find_size(images, Some("extralarge")) {
        return Some(u);
    }
    if let Some(u) = find_size(images, Some("large")) {
        return Some(u);
    }
    if let Some(u) = find_size(images, Some("medium")) {
        return Some(u);
    }
    find_size(images, None)
}

/// The parameters of a request for album art; none unless there is something to
/// ask and a key to ask with.
pub fn art_query(api_key: &str, artist: &str, album: &str) -> (r: Option<Vec<(String, String)>>)
    ensures
        match r {
            Some(v) => !text::blank(api_key@) && !text::blank(artist@) && !text::blank(album@)
                && outside::pair_views(v@) == seq![
                ("method"@, "album.getinfo"@),
                ("api_key"@, api_key@),
                ("artist"@, artist@),
                ("album"@, album@),
                ("format"@, "json"@),
                ("autocorrect"@, "1"@),
            ],
            None => text::blank(api_key@) || text::blank(artist@) || text::blank(album@),
        },
{
    if text::is_blank(api_key) || text::is_blank(artist) || text::is_blank(album) {
        return None;
    }
    let v = vec![
        ("method".to_string(), "album.getinfo".to_string()),
        ("api_key".to_string(), api_key.to_string()),
        ("artist".to_string(), artist.to_string()),
        ("album".to_string(), album.to_string()),
        ("format".to_string(), "json".to_string()),
        ("autocorrect".to_string(), "1".to_string()),
    ];
    assert(outside::pair_views(v@) =~= seq![
        ("method"@, "album.getinfo"@),
        ("api_key"@, api_key@),
        ("artist"@, artist@),
        ("album"@, album@),
        ("format"@, "json"@),
        ("autocorrect"@, "1"@),
    ]);
    Some(v)
}

// ── errors ─────────────────────────────────────────────────────────────

/// Why a call failed.
#[derive(Debug, PartialEq, Eq)]
pub enum LastfmError {
    NotConfigured,
    NotAuthorized,
    Api(String),
    Http(String),
    Malformed,
}

impl LastfmError {
    /// The message shown for this error.
    pub open spec fn text(self) -> Seq<char> {
        match self {
            LastfmError::NotConfigured => "not configured"@,
            LastfmError::NotAuthorized => "last.fm is not linked yet"@,
            LastfmError::Api(e) => "last.fm said: "@ + e@,
            LastfmError::Http(_) => "could not reach last.fm"@,
            LastfmError::Malformed => "last.fm sent a malformed response"@,
        }
    }

    /// The message shown for this error.
    pub fn message(&self) -> (r: String)
        ensures
            r@ == self.text(),
            r@ == (match *self {
                LastfmError::NotConfigured => "not configured"@,
                LastfmError::NotAuthorized => "last.fm is not linked yet"@,
                LastfmError::Api(e) => "last.fm said: "@ + e@,
                LastfmError::Http(_) => "could not reach last.fm"@,
                LastfmError::Malformed => "last.fm sent a malformed response"@,
            }),
    {
        match self {
            LastfmError::NotConfigured => "not configured".to_string(),
            LastfmError::NotAuthorized => "last.fm is not linked yet".to_string(),
            LastfmError::Api(e) => text::concat("last.fm said: ", e.as_str()),
            LastfmError::Http(_) => "could not reach last.fm".to_string(),
            LastfmError::Malformed => "last.fm sent a malformed response".to_string(),
        }
    }
}

/// A linked account.
#[derive(Debug, PartialEq, Eq)]
pub struct Session {
    pub key: String,
    pub username: String,
}

// ── signing ────────────────────────────────────────────────────────────

/// The names of parameters.
pub open spec fn names(params: Seq<(Seq<char>, Seq<char>)>) -> Seq<Seq<char>> {
    params.map_values(|p: (Seq<char>, Seq<char>)| p.0)
}

/// Parameters in the order that `p` lists.
pub open spec fn arranged(params: Seq<(Seq<char>, Seq<char>)>, p: Seq<int>) -> Seq<
    (Seq<char>, Seq<char>),
> {
    p.map_values(|i: int| params[i])
}

/// Names and values, one after another.
pub open spec fn run_together(params: Seq<(Seq<char>, Seq<char>)>) -> Seq<char>
    decreases params.len(),
{
    if params.len() == 0 {
        Seq::empty()
    } else {
        run_together(params.drop_last()) + params.last().0 + params.last().1
    }
}

/// Whether `sig` signs the parameters: the digest of their names and values,
/// sorted by name, with the secret behind them.
pub open spec fn is_signature(
    params: Seq<(Seq<char>, Seq<char>)>,
    secret: Seq<char>,
    sig: Seq<char>,
) -> bool {
    exists|p: Seq<int>| #[trigger]
        order::is_stable_text_order(names(params), p) && sig == outside::md5_of(
            run_together(arranged(params, p)) + secret,
        )
}

/// What is signed: name and value of each parameter in turn, by name, with nothing
/// between them, and the secret behind it all.
pub proof fn lemma_what_is_signed(
    params: Seq<(Seq<char>, Seq<char>)>,
    name: Seq<char>,
    value: Seq<char>,
    secret: Seq<char>,
    sig: Seq<char>,
)
    ensures
        run_together(Seq::empty()) == Seq::<char>::empty(),
        run_together(params.push((name, value))) == run_together(params) + name + value,
        by_name(params) && is_signature(params, secret, sig) ==> sig == outside::md5_of(
            run_together(params) + secret,
        ),
{
    assert(params.push((name, value)).drop_last() =~= params);
    if by_name(params) && is_signature(params, secret, sig) {
        let p = choose|p: Seq<int>| #[trigger]
            order::is_stable_text_order(names(params), p) && sig == outside::md5_of(
                run_together(arranged(params, p)) + secret,
            );
        lemma_sorted_stays(params, p);
    }
}

/// Parameters that stand by name already are arranged as they stand.
proof fn lemma_sorted_stays(params: Seq<(Seq<char>, Seq<char>)>, p: Seq<int>)
    requires
        by_name(params),
        order::is_stable_text_order(names(params), p),
    ensures
        arranged(params, p) == params,
{
    let keys = names(params);
    order::lemma_text_order_is_complete(keys, p);
    assert forall|a: int, b: int| 0 <= a < b < p.len() implies p[a] < p[b] by {
        assert(order::in_text_order(keys, p[a], p[b]));
        if p[a] > p[b] {
            assert(order::text_less(params[p[b]].0, params[p[a]].0));
            order::lemma_text_less_total(params[p[b]].0, params[p[a]].0);
        }
    }
    assert forall|k: int| 0 <= k < p.len() implies p[k] == k by {
        lemma_climbing(p, k);
    }
    assert(arranged(params, p) =~= params);
}

/// Places that climb, as many as there are, are each where they stand.
proof fn lemma_climbing(p: Seq<int>, k: int)
    requires
        forall|a: int| 0 <= a < p.len() ==> 0 <= #[trigger] p[a] < p.len(),
        forall|a: int, b: int| 0 <= a < b < p.len() ==> #[trigger] p[a] < #[trigger] p[b],
        0 <= k < p.len(),
    ensures
        p[k] == k,
{
    lemma_climbs_from(p, k);
    lemma_climbs_to(p, k);
}

proof fn lemma_climbs_from(p: Seq<int>, k: int)
    requires
        forall|a: int| 0 <= a < p.len() ==> 0 <= #[trigger] p[a] < p.len(),
        forall|a: int, b: int| 0 <= a < b < p.len() ==> #[trigger] p[a] < #[trigger] p[b],
        0 <= k < p.len(),
    ensures
        p[k] >= k,
    decreases k,
{
    if k > 0 {
        lemma_climbs_from(p, k - 1);
        assert(p[k - 1] < p[k]);
    }
}

proof fn lemma_climbs_to(p: Seq<int>, k: int)
    requires
        forall|a: int| 0 <= a < p.len() ==> 0 <= #[trigger] p[a] < p.len(),
        forall|a: int, b: int| 0 <= a < b < p.len() ==> #[trigger] p[a] < #[trigger] p[b],
        0 <= k < p.len(),
    ensures
        p[k] <= k,
    decreases p.len() - k,
{
    if k + 1 < p.len() {
        lemma_climbs_to(p, k + 1);
        assert(p[k] < p[k + 1]);
    }
}

/// Signs the parameters of a call.
pub fn sign(params: &Vec<(String, String)>, shared_secret: &str) -> (r: String)
    ensures
        is_signature(outside::pair_views(params@), shared_secret@, r@),
        outside::is_hex_text(r@, 32),
{
    let ghost all = outside::pair_views(params@);
    let mut keys: Vec<String> = Vec::new();
    let mut i: usize = 0;
    while i < params.len()
        invariant
            i <= params@.len(),
            keys@.len() == i,
            forall|k: int| 0 <= k < i ==> (#[trigger] keys@[k])@ == params@[k].0@,
        decreases params@.len() - i,
    {
        keys.push(params[i].0.clone());
        i += 1;
    }
    let ord = order::stable_text_order(&keys);
    let ghost p = order::places(ord@);
    assert(text::views(keys@) =~= names(all));
    let ghost sorted = arranged(all, p);
    let mut buf = String::new();
    let mut k: usize = 0;
    assert(sorted.take(0) =~= Seq::empty());
    while k < ord.len()
        invariant
            all == outside::pair_views(params@),
            p == order::places(ord@),
            order::is_stable_text_order(names(all), p),
            sorted == arranged(all, p),
            k <= ord@.len(),
            buf@ == run_together(sorted.take(k as int)),
        decreases ord@.len() - k,
    {
        let at: usize = ord[k];
        assert(p[k as int] == at);
        assert(at < names(all).len());
        let ghost before = buf@;
        buf.append(params[at].0.as_str());
        buf.append(params[at].1.as_str());
        assert(sorted.take(k + 1).drop_last() =~= sorted.take(k as int));
        assert(sorted.take(k + 1).last() == all[at as int]);
        assert(buf@ =~= before + all[at as int].0 + all[at as int].1);
        k += 1;
    }
    assert(sorted.take(k as int) =~= sorted);
    buf.append(shared_secret);
    outside::md5_hex(buf.as_str())
}

/// Strictly sorted by name.
pub open spec fn by_name(s: Seq<(Seq<char>, Seq<char>)>) -> bool {
    forall|i: int, j: int|
        0 <= i < j < s.len() ==> order::text_less((#[trigger] s[i]).0, (#[trigger] s[j]).0)
}

proof fn lemma_sorted_is_unique(s: Seq<(Seq<char>, Seq<char>)>, t: Seq<(Seq<char>, Seq<char>)>)
    requires
        by_name(s),
        by_name(t),
        forall|x: (Seq<char>, Seq<char>)| s.contains(x) <==> t.contains(x),
    ensures
        s == t,
    decreases s.len(),
{
    if s.len() == 0 {
        if t.len() > 0 {
            assert(t.contains(t[0]));
            assert(s.contains(t[0]));
        }
        assert(s =~= t);
    } else {
        assert(s.contains(s[0]));
        assert(t.contains(s[0]));
        let j = choose|j: int| 0 <= j < t.len() && t[j] == s[0];
        assert(t.contains(t[0]));
        assert(s.contains(t[0]));
        let i = choose|i: int| 0 <= i < s.len() && s[i] == t[0];
        if j > 0 {
            assert(order::text_less(t[0].0, t[j].0));
            order::lemma_text_less_total(t[0].0, s[0].0);
            if i > 0 {
                assert(order::text_less(s[0].0, s[i].0));
            } else {
                order::lemma_text_less_total(s[0].0, s[0].0);
            }
            assert(false);
        }
        let u = s.skip(1);
        let v = t.skip(1);
        assert forall|x: (Seq<char>, Seq<char>)| u.contains(x) <==> v.contains(x) by {
            order::lemma_text_less_total(s[0].0, s[0].0);
            if u.contains(x) {
                let a = choose|a: int| 0 <= a < u.len() && u[a] == x;
                assert(s[a + 1] == x);
                assert(order::text_less(s[0].0, s[a + 1].0));
                assert(s.contains(x));
                assert(t.contains(x));
                let b = choose|b: int| 0 <= b < t.len() && t[b] == x;
                assert(b != 0);
                assert(v[b - 1] == x);
            }
            if v.contains(x) {
                let a = choose|a: int| 0 <= a < v.len() && v[a] == x;
                assert(t[a + 1] == x);
                assert(order::text_less(t[0].0, t[a + 1].0));
                assert(t.contains(x));
                assert(s.contains(x));
                let b = choose|b: int| 0 <= b < s.len() && s[b] == x;
                assert(b != 0);
                assert(u[b - 1] == x);
            }
        }
        assert(by_name(u)) by {
            assert forall|a: int, b: int| 0 <= a < b < u.len() implies order::text_less(
                (#[trigger] u[a]).0,
                (#[trigger] u[b]).0,
            ) by {
                assert(u[a] == s[a + 1]);
                assert(u[b] == s[b + 1]);
            }
        }
        assert(by_name(v)) by {
            assert forall|a: int, b: int| 0 <= a < b < v.len() implies order::text_less(
                (#[trigger] v[a]).0,
                (#[trigger] v[b]).0,
            ) by {
                assert(v[a] == t[a + 1]);
                assert(v[b] == t[b + 1]);
            }
        }
        lemma_sorted_is_unique(u, v);
        assert(s =~= seq![s[0]] + u);
        assert(t =~= seq![t[0]] + v);
    }
}

proof fn lemma_arranged(params: Seq<(Seq<char>, Seq<char>)>, p: Seq<int>)
    requires
        order::is_stable_text_order(names(params), p),
        names(params).no_duplicates(),
    ensures
        by_name(arranged(params, p)),
        forall|x: (Seq<char>, Seq<char>)| arranged(params, p).contains(x) <==> params.contains(x),
{
    let s = arranged(params, p);
    order::lemma_text_order_is_complete(names(params), p);
    assert forall|i: int, j: int| 0 <= i < j < s.len() implies order::text_less(
        (#[trigger] s[i]).0,
        (#[trigger] s[j]).0,
    ) by {
        assert(order::in_text_order(names(params), p[i], p[j]));
        assert(names(params)[p[i]] == params[p[i]].0);
        assert(names(params)[p[j]] == params[p[j]].0);
        assert(p[i] != p[j]);
    }
    assert forall|x: (Seq<char>, Seq<char>)| s.contains(x) <==> params.contains(x) by {
        if s.contains(x) {
            let a = choose|a: int| 0 <= a < s.len() && s[a] == x;
            assert(0 <= p[a] < names(params).len());
            assert(params[p[a]] == x);
        }
        if params.contains(x) {
            let a = choose|a: int| 0 <= a < params.len() && params[a] == x;
            assert(p.contains(a));
            let b = choose|b: int| 0 <= b < p.len() && p[b] == a;
            assert(s[b] == x);
        }
    }
}

/// A signature does not depend on the order in which parameters are given, as
/// long as no name is given twice.
pub proof fn lemma_signing_ignores_order(
    a: Seq<(Seq<char>, Seq<char>)>,
    b: Seq<(Seq<char>, Seq<char>)>,
    secret: Seq<char>,
    sig_a: Seq<char>,
    sig_b: Seq<char>,
)
    requires
        names(a).no_duplicates(),
        names(b).no_duplicates(),
        forall|x: (Seq<char>, Seq<char>)| a.contains(x) <==> b.contains(x),
        is_signature(a, secret, sig_a),
        is_signature(b, secret, sig_b),
    ensures
        sig_a == sig_b,
{
    let p = choose|p: Seq<int>| #[trigger]
        order::is_stable_text_order(names(a), p) && sig_a == outside::md5_of(
            run_together(arranged(a, p)) + secret,
        );
    let q = choose|q: Seq<int>| #[trigger]
        order::is_stable_text_order(names(b), q) && sig_b == outside::md5_of(
            run_together(arranged(b, q)) + secret,
        );
    lemma_arranged(a, p);
    lemma_arranged(b, q);
    assert forall|x: (Seq<char>, Seq<char>)|
        arranged(a, p).contains(x) <==> arranged(b, q).contains(x) by {
        assert(arranged(a, p).contains(x) <==> a.contains(x));
        assert(arranged(b, q).contains(x) <==> b.contains(x));
    }
    lemma_sorted_is_unique(arranged(a, p), arranged(b, q));
}

/// Where the user allows this program to scrobble.
pub fn authorize_url(api_key: &str, token: &str) -> (r: String)
    ensures
        r@ == "https://www.last.fm/api/auth/?api_key="@ + outside::percent_encoded(
            vstd::utf8::encode_utf8(api_key@),
        ) + "&token="@ + outside::percent_encoded(vstd::utf8::encode_utf8(token@)),
{
    let mut out = "https://www.last.fm/api/auth/?api_key=".to_string();
    let key = outside::url_encode(api_key);
    out.append(key.as_str());
    out.append("&token=");
    let token = outside::url_encode(token);
    out.append(token.as_str());
    out
}

// ── calls ──────────────────────────────────────────────────────────────

/// The parameters of a signed call; refused unless both halves of a registration
/// are there.
pub fn prepare_call(
    method: &str,
    api_key: &str,
    shared_secret: &str,
    params: Vec<(String, String)>,
) -> (r: Result<Vec<(String, String)>, LastfmError>)
    ensures
        if text::blank(api_key@) || text::blank(shared_secret@) {
            r == Err::<Vec<(String, String)>, LastfmError>(LastfmError::NotConfigured)
        } else {
            let signed = outside::pair_views(params@).push(("method"@, method@)).push(
                ("api_key"@, api_key@),
            );
            &&& r is Ok
            &&& r->Ok_0@.len() == signed.len() + 2
            &&& outside::pair_views(r->Ok_0@).take(signed.len() as int) == signed
            &&& r->Ok_0@[signed.len() as int].0@ == "api_sig"@
            &&& is_signature(signed, shared_secret@, r->Ok_0@[signed.len() as int].1@)
            &&& outside::pair_views(r->Ok_0@)[signed.len() as int + 1] == ("format"@, "json"@)
        },
{
    if text::is_blank(api_key) || text::is_blank(shared_secret) {
        return Err(LastfmError::NotConfigured);
    }
    let mut params = params;
    let ghost given = outside::pair_views(params@);
    params.push(("method".to_string(), method.to_string()));
    params.push(("api_key".to_string(), api_key.to_string()));
    let ghost signed = given.push(("method"@, method@)).push(("api_key"@, api_key@));
    assert(outside::pair_views(params@) =~= signed);
    let signature = sign(&params, shared_secret);
    params.push(("api_sig".to_string(), signature));
    params.push(("format".to_string(), "json".to_string()));
    assert(outside::pair_views(params@).take(signed.len() as int) =~= signed);
    Ok(params)
}

/// What an error in a reply means: the code and the message it carries, if it
/// carries any. Some codes mean that the account is not linked, or no longer.
pub fn judge_error(code: i32, message: Option<String>) -> (r: LastfmError)
    ensures
        if code == 4 || code == 9 || code == 14 || code == 15 {
            r == LastfmError::NotAuthorized
        } else {
            r is Api && r->Api_0@ == (match message {
                Some(m) => m@,
                None => "error "@ + text::decimal_int(code as int),
            })
        },
{
    if code == 4 || code == 9 || code == 14 || code == 15 {
        return LastfmError::NotAuthorized;
    }
    let text = match message {
        Some(m) => m,
        None => {
            let n = text::show_signed(code as i64);
            text::concat("error ", n.as_str())
        },
    };
    LastfmError::Api(text)
}

/// The token a reply carries.
pub fn token_in(token: Option<String>) -> (r: Result<String, LastfmError>)
    ensures
        r == (if token is Some && !text::blank(token->0@) {
            Ok::<String, LastfmError>(token->0)
        } else {
            Err(LastfmError::Malformed)
        }),
{
    match token {
        Some(t) => if text::is_blank(t.as_str()) {
            Err(LastfmError::Malformed)
        } else {
            Ok(t)
        },
        None => Err(LastfmError::Malformed),
    }
}

/// The session a reply carries: its key and the user's name.
pub fn session_in(session: Option<(String, String)>) -> (r: Result<Session, LastfmError>)
    ensures
        r == (if session is Some && !text::blank((session->0).0@) {
            Ok::<Session, LastfmError>(
                Session { key: (session->0).0, username: (session->0).1 },
            )
        } else {
            Err(LastfmError::Malformed)
        }),
{
    match session {
        Some((key, name)) => if text::is_blank(key.as_str()) {
            Err(LastfmError::Malformed)
        } else {
            Ok(Session { key, username: name })
        },
        None => Err(LastfmError::Malformed),
    }
}

/// A play to report.
pub struct Play<'a> {
    pub artist: &'a str,
    pub title: &'a str,
    pub album: &'a str,
}

impl<'a> Play<'a> {
    /// The parameters of a play. An album is named only if there is one.
    pub open spec fn pairs(self, session_key: Seq<char>) -> Seq<(Seq<char>, Seq<char>)> {
        let base = seq![("artist"@, self.artist@), ("track"@, self.title@), ("sk"@, session_key)];
        if text::blank(self.album@) {
            base
        } else {
            base.push(("album"@, self.album@))
        }
    }

    /// The parameters of a report that this is playing now.
    pub fn params(&self, session_key: &str) -> (r: Vec<(String, String)>)
        ensures
            outside::pair_views(r@) == self.pairs(session_key@),
            text::blank(self.album@) ==> outside::pair_views(r@) == seq![
                ("artist"@, self.artist@),
                ("track"@, self.title@),
                ("sk"@, session_key@),
            ],
            !text::blank(self.album@) ==> outside::pair_views(r@) == seq![
                ("artist"@, self.artist@),
                ("track"@, self.title@),
                ("sk"@, session_key@),
                ("album"@, self.album@),
            ],
    {
        let mut params = vec![
            ("artist".to_string(), self.artist.to_string()),
            ("track".to_string(), self.title.to_string()),
            ("sk".to_string(), session_key.to_string()),
        ];
        if !text::is_blank(self.album) {
            params.push(("album".to_string(), self.album.to_string()));
        }
        assert(outside::pair_views(params@) =~= self.pairs(session_key@));
        params
    }

    /// The parameters of a report that this was played.
    pub fn scrobble_params(&self, session_key: &str, started_at: u64) -> (r: Vec<(String, String)>)
        ensures
            outside::pair_views(r@) == self.pairs(session_key@).push(
                ("timestamp"@, text::decimal(started_at as nat)),
            ),
    {
        let mut params = self.params(session_key);
        params.push(("timestamp".to_string(), text::show(started_at)));
        assert(outside::pair_views(params@) =~= self.pairs(session_key@).push(
            ("timestamp"@, text::decimal(started_at as nat)),
        ));
        params
    }
}

// ── when a play counts ─────────────────────────────────────────────────

/// A track shorter than this never counts.
pub const MIN_TRACK_MS: u64 = 30000;

/// A play this long always counts.
pub const ALWAYS_AT_MS: u64 = 240000;

/// Whether a play counts: past half the track, or past four minutes, of a track
/// of at least thirty seconds.
pub open spec fn counts(position_ms: u64, duration_ms: u64) -> bool {
    duration_ms >= MIN_TRACK_MS && (position_ms >= duration_ms / 2 || position_ms >= ALWAYS_AT_MS)
}

/// Whether a play counts.
pub fn scrobble_due(position_ms: u64, duration_ms: u64) -> (r: bool)
    ensures
        r == counts(position_ms, duration_ms),
        duration_ms < 30_000 ==> !r,
        duration_ms >= 30_000 && position_ms >= 240_000 ==> r,
        duration_ms >= 30_000 && position_ms < 240_000 ==> (r <==> position_ms >= duration_ms / 2),
{
    if duration_ms < MIN_TRACK_MS {
        return false;
    }
    position_ms >= duration_ms / 2 || position_ms >= ALWAYS_AT_MS
}

/// A play that counts still counts further on.
pub proof fn lemma_counting_lasts(earlier: u64, later: u64, duration_ms: u64)
    requires
        earlier <= later,
        counts(earlier, duration_ms),
    ensures
        counts(later, duration_ms),
{
}

/// A track of at least thirty seconds counts when it is played to its end.
pub proof fn lemma_whole_tracks_count(duration_ms: u64)
    requires
        duration_ms >= MIN_TRACK_MS,
    ensures
        counts(duration_ms, duration_ms),
{
}

/// When a play began, in seconds, no earlier than the epoch.
pub fn started_at(now_unix: u64, position_ms: u64) -> (r: u64)
    ensures
        r == (if now_unix < position_ms / 1000 {
            0int
        } else {
            now_unix - position_ms / 1000
        }),
{
    now_unix.saturating_sub(position_ms / 1000)
}

/// Whole seconds of a clock reading; zero of a clock set before the epoch.
pub fn seconds_of(reading: Option<(u64, u32)>) -> (r: u64)
    ensures
        r == (match reading {
            Some(t) => t.0,
            None => 0u64,
        }),
{
    match reading {
        Some((secs, _)) => secs,
        None => 0,
    }
}

/// What time it is, in seconds since the epoch.
pub fn now_unix() -> u64 {
    seconds_of(outside::since_epoch())
}

} // verus!
