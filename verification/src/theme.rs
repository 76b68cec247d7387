//! Colour themes: reading colours, choosing among themes, and what a theme says
//! to the style sheet.
//!
//! Mixing colours and measuring contrast is arithmetic on fractions and is done
//! by the caller; what is mixed is handed in.

use vstd::prelude::*;
use crate::order;
use crate::outside;
use crate::text;

verus! {

// ── colours ────────────────────────────────────────────────────────────

/// A colour.
#[derive(Debug, Clone, Copy, PartialEq, Eq, Structural)]
pub struct Rgb {
    pub r: u8,
    pub g: u8,
    pub b: u8,
}

/// The value of a hexadecimal digit of either case.
pub open spec fn hex_digit(c: char) -> Option<int> {
    if '0' <= c <= '9' {
        Some(c as int - '0' as int)
    } else if 'a' <= c <= 'f' {
        Some(c as int - 'a' as int + 10)
    } else if 'A' <= c <= 'F' {
        Some(c as int - 'A' as int + 10)
    } else {
        None
    }
}

/// `s` without the `c`s it begins with.
pub open spec fn without_leading(s: Seq<char>, c: char) -> Seq<char>
    decreases s.len(),
{
    if s.len() > 0 && s[0] == c {
        without_leading(s.skip(1), c)
    } else {
        s
    }
}

/// The colour that six hexadecimal digits write.
pub open spec fn colour_of(s: Seq<char>) -> Option<Rgb> {
    if s.len() == 6 && forall|i: int| 0 <= i < 6 ==> hex_digit(#[trigger] s[i]) is Some {
        Some(
            Rgb {
                r: (16 * hex_digit(s[0])->0 + hex_digit(s[1])->0) as u8,
                g: (16 * hex_digit(s[2])->0 + hex_digit(s[3])->0) as u8,
                b: (16 * hex_digit(s[4])->0 + hex_digit(s[5])->0) as u8,
            },
        )
    } else {
        None
    }
}

/// The colour that a text writes, with or without a number sign.
pub open spec fn parsed(raw: Seq<char>) -> Option<Rgb> {
    colour_of(without_leading(text::trimmed(raw), '#'))
}

/// A byte as two lower-case hexadecimal digits.
pub open spec fn hex_byte(n: u8) -> Seq<char> {
    seq![outside::hex_lower((n / 16) as int), outside::hex_lower((n % 16) as int)]
}

fn digit_value(c: char) -> (r: Option<u8>)
    ensures
        match r {
            Some(n) => hex_digit(c) == Some(n as int) && n < 16,
            None => hex_digit(c) is None,
        },
{
    if '0' <= c && c <= '9' {
        Some((c as u32 - '0' as u32) as u8)
    } else if 'a' <= c && c <= 'f' {
        Some((c as u32 - 'a' as u32 + 10) as u8)
    } else if 'A' <= c && c <= 'F' {
        Some((c as u32 - 'A' as u32 + 10) as u8)
    } else {
        None
    }
}

fn pair_value(v: &Vec<char>, at: usize) -> (r: Option<u8>)
    requires
        at + 2 <= v@.len(),
    ensures
        match r {
            Some(n) => {
                &&& hex_digit(v@[at as int]) is Some
                &&& hex_digit(v@[at + 1]) is Some
                &&& n == 16 * hex_digit(v@[at as int])->0 + hex_digit(v@[at + 1])->0
            },
            None => hex_digit(v@[at as int]) is None || hex_digit(v@[at + 1]) is None,
        },
{
    assert(at + 1 < v.len());
    match (digit_value(v[at]), digit_value(v[at + 1])) {
        (Some(a), Some(b)) => Some(a * 16 + b),
        _ => None,
    }
}

fn push_hex(out: &mut String, n: u8)
    ensures
        final(out)@ == old(out)@ + hex_byte(n),
{
    out.push(hex_char(n / 16));
    out.push(hex_char(n % 16));
    assert(out@ =~= old(out)@ + hex_byte(n));
}

fn hex_char(n: u8) -> (r: char)
    requires
        n < 16,
    ensures
        r == outside::hex_lower(n as int),
{
    if n < 10 {
        (48 + n) as char
    } else {
        (97 + (n - 10)) as char
    }
}

impl Rgb {
    /// Reads a colour.
    pub fn parse(raw: &str) -> (r: Option<Self>)
        ensures
            r == parsed(raw@),
    {
        let t = text::trim(raw);
        let v = text::to_chars(t.as_str());
        let mut i: usize = 0;
        assert(v@.skip(0) =~= v@);
        while i < v.len() && v[i] == '#'
            invariant
                i <= v@.len(),
                without_leading(v@, '#') == without_leading(v@.skip(i as int), '#'),
            decreases v@.len() - i,
        {
            assert(v@.skip(i as int)[0] == v@[i as int]);
            assert(v@.skip(i as int).skip(1) =~= v@.skip(i + 1));
            i += 1;
        }
        assert(i < v@.len() ==> v@.skip(i as int)[0] == v@[i as int]);
        let ghost s = without_leading(v@, '#');
        assert(s == v@.skip(i as int));
        if v.len() - i != 6 {
            return None;
        }
        assert(forall|k: int| 0 <= k < 6 ==> s[k] == v@[i + k]);
        match (pair_value(&v, i), pair_value(&v, i + 2), pair_value(&v, i + 4)) {
            (Some(r), Some(g), Some(b)) => {
                assert(hex_digit(s[0]) is Some && hex_digit(s[1]) is Some && hex_digit(s[2]) is Some
                    && hex_digit(s[3]) is Some && hex_digit(s[4]) is Some && hex_digit(
                    s[5],
                ) is Some);
                Some(Rgb { r, g, b })
            },
            _ => None,
        }
    }

    /// The colour as it is written.
    pub open spec fn written(self) -> Seq<char> {
        seq!['#'] + hex_byte(self.r) + hex_byte(self.g) + hex_byte(self.b)
    }

    /// The colour as it is written.
    pub fn hex(&self) -> (r: String)
        ensures
            r@ == self.written(),
            r@ == seq![
                '#',
                outside::hex_lower((self.r / 16) as int),
                outside::hex_lower((self.r % 16) as int),
                outside::hex_lower((self.g / 16) as int),
                outside::hex_lower((self.g % 16) as int),
                outside::hex_lower((self.b / 16) as int),
                outside::hex_lower((self.b % 16) as int),
            ],
    {
        let mut out = String::new();
        out.push('#');
        assert(out@ =~= seq!['#']);
        push_hex(&mut out, self.r);
        push_hex(&mut out, self.g);
        push_hex(&mut out, self.b);
        out
    }
}

/// Six digits, of either case and with or without a number sign, are red, green and
/// blue, two each.
pub proof fn lemma_digits_are_colours(s: Seq<char>)
    requires
        s.len() == 6,
        forall|i: int|
            0 <= i < 6 ==> '0' <= #[trigger] s[i] <= '9' || 'a' <= s[i] <= 'f' || 'A' <= s[i] <= 'F',
    ensures
        parsed(s) is Some,
        parsed(seq!['#'] + s) == parsed(s),
        parsed(s)->0.r == 16 * hex_digit(s[0])->0 + hex_digit(s[1])->0,
        parsed(s)->0.g == 16 * hex_digit(s[2])->0 + hex_digit(s[3])->0,
        parsed(s)->0.b == 16 * hex_digit(s[4])->0 + hex_digit(s[5])->0,
        '0' <= s[0] <= '9' ==> hex_digit(s[0]) == Some(s[0] as int - 0x30),
        'a' <= s[0] <= 'f' ==> hex_digit(s[0]) == Some(s[0] as int - 0x61 + 10),
        'A' <= s[0] <= 'F' ==> hex_digit(s[0]) == Some(s[0] as int - 0x41 + 10),
{
    let t = seq!['#'] + s;
    assert(t[0] == '#' && t[6] == s[5]);
    text::lemma_trimmed_keeps(s, 5);
    text::lemma_trimmed_keeps(t, 6);
    assert(t.skip(1) =~= s);
    reveal_with_fuel(without_leading, 3);
    assert(forall|i: int| 0 <= i < 6 ==> hex_digit(#[trigger] s[i]) is Some);
}

/// A colour that is written reads back as itself.
pub proof fn lemma_colour_round_trip(c: Rgb)
    ensures
        parsed(c.written()) == Some(c),
{
    let s = c.written();
    assert(s.len() == 7);
    assert(s[0] == '#');
    assert(!text::is_space(s[0]));
    assert(s[6] == outside::hex_lower((c.b % 16) as int));
    assert(!text::is_space(s.last()));
    assert(text::trimmed(s) == s);
    let d = s.skip(1);
    assert(d =~= hex_byte(c.r) + hex_byte(c.g) + hex_byte(c.b));
    assert(d[0] != '#');
    reveal_with_fuel(without_leading, 2);
    assert(without_leading(s, '#') == d);
    assert(hex_digit(d[0]) == Some((c.r / 16) as int));
    assert(hex_digit(d[1]) == Some((c.r % 16) as int));
    assert(hex_digit(d[2]) == Some((c.g / 16) as int));
    assert(hex_digit(d[3]) == Some((c.g % 16) as int));
    assert(hex_digit(d[4]) == Some((c.b / 16) as int));
    assert(hex_digit(d[5]) == Some((c.b % 16) as int));
}

// ── themes ─────────────────────────────────────────────────────────────

/// Whether a theme is light or dark.
#[derive(Debug, Clone, Copy, PartialEq, Eq, Structural)]
pub enum Polarity {
    Light,
    Dark,
}

/// Why a theme file is no theme.
#[derive(Debug, PartialEq, Eq)]
pub enum ThemeError {
    Toml(String),
    Missing(&'static str),
    BadColour(&'static str, String),
}

impl ThemeError {
    /// The message shown for this error.
    pub open spec fn text(self) -> Seq<char> {
        match self {
            ThemeError::Toml(e) => "could not parse theme file: "@ + e@,
            ThemeError::Missing(f) => "missing required field: "@ + f@,
            ThemeError::BadColour(f, v) => "field "@ + f@ + " is not a hex colour: "@ + v@,
        }
    }

    /// The message shown for this error.
    pub fn message(&self) -> (r: String)
        ensures
            r@ == self.text(),
            r@ == (match *self {
                ThemeError::Toml(e) => "could not parse theme file: "@ + e@,
                ThemeError::Missing(f) => "missing required field: "@ + f@,
                ThemeError::BadColour(f, v) => "field "@ + f@ + " is not a hex colour: "@ + v@,
            }),
    {
        match self {
            ThemeError::Toml(e) => text::concat("could not parse theme file: ", e.as_str()),
            ThemeError::Missing(f) => text::concat("missing required field: ", f),
            ThemeError::BadColour(f, v) => {
                let mut out = "field ".to_string();
                out.append(f);
                out.append(" is not a hex colour: ");
                out.append(v.as_str());
                out
            },
        }
    }
}

/// What a theme file holds, as it stands.
#[derive(Debug, PartialEq, Eq)]
pub struct Wire {
    pub name: Option<String>,
    pub ground: Option<String>,
    pub panel: Option<String>,
    pub ink: Option<String>,
    pub accent: Option<String>,
    pub rule: Option<String>,
    pub muted: Option<String>,
    pub ok: Option<String>,
    pub warn: Option<String>,
    pub crit: Option<String>,
}

/// The colours a theme file states.
#[derive(Debug, PartialEq, Eq)]
pub struct Colours {
    pub name: Option<String>,
    pub ground: Rgb,
    pub panel: Rgb,
    pub ink: Rgb,
    pub accent: Rgb,
    pub rule: Option<Rgb>,
    pub muted: Option<Rgb>,
    pub ok: Option<Rgb>,
    pub warn: Option<Rgb>,
    pub crit: Option<Rgb>,
}

/// What is wrong with a field that must be there, if anything is.
pub open spec fn required_fault(field: &'static str, v: Option<String>) -> Option<ThemeError> {
    match v {
        None => Some(ThemeError::Missing(field)),
        Some(raw) => if parsed(raw@) is None {
            Some(ThemeError::BadColour(field, raw))
        } else {
            None
        },
    }
}

/// What is wrong with a field that may be left out, if anything is.
pub open spec fn optional_fault(field: &'static str, v: Option<String>) -> Option<ThemeError> {
    match v {
        None => None,
        Some(raw) => if parsed(raw@) is None {
            Some(ThemeError::BadColour(field, raw))
        } else {
            None
        },
    }
}

/// The colour a field states, if it states one.
pub open spec fn stated(v: Option<String>) -> Option<Rgb> {
    match v {
        Some(raw) => parsed(raw@),
        None => None,
    }
}

/// The first fault of a list.
pub open spec fn or_else(a: Option<ThemeError>, b: Option<ThemeError>) -> Option<ThemeError> {
    if a is Some {
        a
    } else {
        b
    }
}

/// The first fault of a theme file, in the order in which its fields are read.
pub open spec fn fault(w: Wire) -> Option<ThemeError> {
    or_else(
        required_fault("ground", w.ground),
        or_else(
            required_fault("panel", w.panel),
            or_else(
                required_fault("ink", w.ink),
                or_else(
                    required_fault("accent", w.accent),
                    or_else(
                        optional_fault("rule", w.rule),
                        or_else(
                            optional_fault("muted", w.muted),
                            or_else(
                                optional_fault("ok", w.ok),
                                or_else(
                                    optional_fault("warn", w.warn),
                                    optional_fault("crit", w.crit),
                                ),
                            ),
                        ),
                    ),
                ),
            ),
        ),
    )
}

fn required(field: &'static str, v: Option<String>) -> (r: Result<Rgb, ThemeError>)
    ensures
        match r {
            Ok(c) => required_fault(field, v) is None && stated(v) == Some(c),
            Err(e) => required_fault(field, v) == Some(e),
        },
{
    match v {
        Some(raw) => match Rgb::parse(raw.as_str()) {
            Some(c) => Ok(c),
            None => Err(ThemeError::BadColour(field, raw)),
        },
        None => Err(ThemeError::Missing(field)),
    }
}

fn optional(field: &'static str, v: Option<String>) -> (r: Result<Option<Rgb>, ThemeError>)
    ensures
        match r {
            Ok(c) => optional_fault(field, v) is None && c == stated(v),
            Err(e) => optional_fault(field, v) == Some(e),
        },
{
    match v {
        Some(raw) => match Rgb::parse(raw.as_str()) {
            Some(c) => Ok(Some(c)),
            None => Err(ThemeError::BadColour(field, raw)),
        },
        None => Ok(None),
    }
}

/// Reads the colours of a theme file; its first fault, if it has one.
pub fn read_colours(w: Wire) -> (r: Result<Colours, ThemeError>)
    ensures
        match r {
            Ok(c) => {
                &&& fault(w) is None
                &&& c.name == w.name
                &&& Some(c.ground) == stated(w.ground)
                &&& Some(c.panel) == stated(w.panel)
                &&& Some(c.ink) == stated(w.ink)
                &&& Some(c.accent) == stated(w.accent)
                &&& c.rule == stated(w.rule)
                &&& c.muted == stated(w.muted)
                &&& c.ok == stated(w.ok)
                &&& c.warn == stated(w.warn)
                &&& c.crit == stated(w.crit)
            },
            Err(e) => fault(w) == Some(e),
        },
        r is Ok ==> {
            let c = r->Ok_0;
            &&& w.ground is Some && Some(c.ground) == parsed(w.ground->0@)
            &&& w.panel is Some && Some(c.panel) == parsed(w.panel->0@)
            &&& w.ink is Some && Some(c.ink) == parsed(w.ink->0@)
            &&& w.accent is Some && Some(c.accent) == parsed(w.accent->0@)
            &&& w.rule is Some ==> c.rule == parsed(w.rule->0@) && c.rule is Some
            &&& w.muted is Some ==> c.muted == parsed(w.muted->0@) && c.muted is Some
            &&& w.ok is Some ==> c.ok == parsed(w.ok->0@) && c.ok is Some
            &&& w.warn is Some ==> c.warn == parsed(w.warn->0@) && c.warn is Some
            &&& w.crit is Some ==> c.crit == parsed(w.crit->0@) && c.crit is Some
            &&& w.rule is None ==> c.rule is None
            &&& w.muted is None ==> c.muted is None
            &&& w.ok is None ==> c.ok is None
            &&& w.warn is None ==> c.warn is None
            &&& w.crit is None ==> c.crit is None
        },
        w.ground is None ==> r == Err::<Colours, ThemeError>(ThemeError::Missing("ground")),
        w.ground is Some && parsed(w.ground->0@) is None ==> r == Err::<Colours, ThemeError>(
            ThemeError::BadColour("ground", w.ground->0),
        ),
        r is Ok <==> {
            &&& w.ground is Some && parsed(w.ground->0@) is Some
            &&& w.panel is Some && parsed(w.panel->0@) is Some
            &&& w.ink is Some && parsed(w.ink->0@) is Some
            &&& w.accent is Some && parsed(w.accent->0@) is Some
            &&& w.rule is Some ==> parsed(w.rule->0@) is Some
            &&& w.muted is Some ==> parsed(w.muted->0@) is Some
            &&& w.ok is Some ==> parsed(w.ok->0@) is Some
            &&& w.warn is Some ==> parsed(w.warn->0@) is Some
            &&& w.crit is Some ==> parsed(w.crit->0@) is Some
        },
{
    let ground = match required("ground", w.ground) {
        Ok(c) => c,
        Err(e) => return Err(e),
    };
    let panel = match required("panel", w.panel) {
        Ok(c) => c,
        Err(e) => return Err(e),
    };
    let ink = match required("ink", w.ink) {
        Ok(c) => c,
        Err(e) => return Err(e),
    };
    let accent = match required("accent", w.accent) {
        Ok(c) => c,
        Err(e) => return Err(e),
    };
    let rule = match optional("rule", w.rule) {
        Ok(c) => c,
        Err(e) => return Err(e),
    };
    let muted = match optional("muted", w.muted) {
        Ok(c) => c,
        Err(e) => return Err(e),
    };
    let ok = match optional("ok", w.ok) {
        Ok(c) => c,
        Err(e) => return Err(e),
    };
    let warn = match optional("warn", w.warn) {
        Ok(c) => c,
        Err(e) => return Err(e),
    };
    let crit = match optional("crit", w.crit) {
        Ok(c) => c,
        Err(e) => return Err(e),
    };
    Ok(Colours { name: w.name, ground, panel, ink, accent, rule, muted, ok, warn, crit })
}

/// A theme.
#[derive(Debug, PartialEq, Eq)]
pub struct Theme {
    pub id: String,
    pub name: String,
    pub polarity: Polarity,
    pub ground: Rgb,
    pub panel: Rgb,
    pub rule: Rgb,
    pub ink: Rgb,
    pub muted: Rgb,
    pub muted2: Rgb,
    pub accent: Rgb,
    pub ok: Rgb,
    pub warn: Rgb,
    pub crit: Rgb,
}

impl Clone for Theme {
    fn clone(&self) -> (r: Self)
        ensures
            r == *self,
    {
        Theme {
            id: self.id.clone(),
            name: self.name.clone(),
            polarity: self.polarity,
            ground: self.ground,
            panel: self.panel,
            rule: self.rule,
            ink: self.ink,
            muted: self.muted,
            muted2: self.muted2,
            accent: self.accent,
            ok: self.ok,
            warn: self.warn,
            crit: self.crit,
        }
    }
}

/// A colour that may be left out, or else a default.
pub open spec fn or_default(c: Option<Rgb>, default: Rgb) -> Rgb {
    match c {
        Some(x) => x,
        None => default,
    }
}

/// The colours of good news, of a warning and of bad news, where a theme does
/// not state them.
pub open spec fn signal_colours(p: Polarity) -> (Rgb, Rgb, Rgb) {
    match p {
        Polarity::Dark => (
            Rgb { r: 0x62, g: 0xa6, b: 0x88 },
            Rgb { r: 0xc0, g: 0x9a, b: 0x5f },
            Rgb { r: 0xc6, g: 0x6d, b: 0x60 },
        ),
        Polarity::Light => (
            Rgb { r: 0x20, g: 0x61, b: 0x3f },
            Rgb { r: 0x6f, g: 0x51, b: 0x15 },
            Rgb { r: 0x99, g: 0x33, b: 0x26 },
        ),
    }
}

/// Colours mixed from those a theme states.
#[derive(Debug, Clone, Copy, PartialEq, Eq, Structural)]
pub struct Mixed {
    pub polarity: Polarity,
    /// For a theme that states no `rule`.
    pub rule: Rgb,
    /// For a theme that states no `muted`.
    pub muted: Rgb,
    /// Never stated, always mixed.
    pub muted2: Rgb,
}

fn pick(c: Option<Rgb>, default: Rgb) -> (r: Rgb)
    ensures
        r == or_default(c, default),
{
    match c {
        Some(x) => x,
        None => default,
    }
}

impl Theme {
    /// Puts a theme together. What it states wins over what is mixed; a theme
    /// without a name goes by its id.
    pub fn assemble(id: &str, c: Colours, mixed: Mixed) -> (r: Theme)
        ensures
            r.id@ == id@,
            r.name@ == (match c.name {
                Some(n) => n@,
                None => id@,
            }),
            r.polarity == mixed.polarity,
            r.ground == c.ground,
            r.panel == c.panel,
            r.rule == or_default(c.rule, mixed.rule),
            r.ink == c.ink,
            r.muted == or_default(c.muted, mixed.muted),
            r.muted2 == mixed.muted2,
            r.accent == c.accent,
            r.ok == or_default(c.ok, signal_colours(mixed.polarity).0),
            r.warn == or_default(c.warn, signal_colours(mixed.polarity).1),
            r.crit == or_default(c.crit, signal_colours(mixed.polarity).2),
            c.rule is Some ==> r.rule == c.rule->0,
            c.rule is None ==> r.rule == mixed.rule,
            c.muted is Some ==> r.muted == c.muted->0,
            c.muted is None ==> r.muted == mixed.muted,
            c.ok is Some ==> r.ok == c.ok->0,
            c.warn is Some ==> r.warn == c.warn->0,
            c.crit is Some ==> r.crit == c.crit->0,
            c.ok is None && mixed.polarity == Polarity::Dark ==> r.ok == (Rgb {
                r: 0x62,
                g: 0xa6,
                b: 0x88,
            }),
            c.warn is None && mixed.polarity == Polarity::Dark ==> r.warn == (Rgb {
                r: 0xc0,
                g: 0x9a,
                b: 0x5f,
            }),
            c.crit is None && mixed.polarity == Polarity::Dark ==> r.crit == (Rgb {
                r: 0xc6,
                g: 0x6d,
                b: 0x60,
            }),
            c.ok is None && mixed.polarity == Polarity::Light ==> r.ok == (Rgb {
                r: 0x20,
                g: 0x61,
                b: 0x3f,
            }),
            c.warn is None && mixed.polarity == Polarity::Light ==> r.warn == (Rgb {
                r: 0x6f,
                g: 0x51,
                b: 0x15,
            }),
            c.crit is None && mixed.polarity == Polarity::Light ==> r.crit == (Rgb {
                r: 0x99,
                g: 0x33,
                b: 0x26,
            }),
    {
        let (ok, warn, crit) = match mixed.polarity {
            Polarity::Dark => (
                Rgb { r: 0x62, g: 0xa6, b: 0x88 },
                Rgb { r: 0xc0, g: 0x9a, b: 0x5f },
                Rgb { r: 0xc6, g: 0x6d, b: 0x60 },
            ),
            Polarity::Light => (
                Rgb { r: 0x20, g: 0x61, b: 0x3f },
                Rgb { r: 0x6f, g: 0x51, b: 0x15 },
                Rgb { r: 0x99, g: 0x33, b: 0x26 },
            ),
        };
        Theme {
            id: id.to_string(),
            name: match c.name {
                Some(n) => n,
                None => id.to_string(),
            },
            polarity: mixed.polarity,
            ground: c.ground,
            panel: c.panel,
            rule: pick(c.rule, mixed.rule),
            ink: c.ink,
            muted: pick(c.muted, mixed.muted),
            muted2: mixed.muted2,
            accent: c.accent,
            ok: pick(c.ok, ok),
            warn: pick(c.warn, warn),
            crit: pick(c.crit, crit),
        }
    }

    /// Whether a theme is dark.
    pub fn is_dark(&self) -> (r: bool)
        ensures
            r == (self.polarity == Polarity::Dark),
    {
        self.polarity == Polarity::Dark
    }

    /// What a theme says to the style sheet.
    pub open spec fn declarations(self) -> Seq<char> {
        "--color-ground:"@ + self.ground.written() + ";--color-panel:"@ + self.panel.written()
            + ";--color-rule:"@ + self.rule.written() + ";--color-ink:"@ + self.ink.written()
            + ";--color-muted:"@ + self.muted.written() + ";--color-muted2:"@
            + self.muted2.written() + ";--color-accent:"@ + self.accent.written() + ";--color-ok:"@
            + self.ok.written() + ";--color-warn:"@ + self.warn.written() + ";--color-crit:"@
            + self.crit.written() + ";--edge-tint:"@ + (match self.polarity {
            Polarity::Dark => "255,255,255"@,
            Polarity::Light => "0,0,0"@,
        })
    }

    /// What a theme says to the style sheet: declarations, no rule around them.
    pub fn css(&self) -> (r: String)
        ensures
            r@ == self.declarations(),
            r@ == "--color-ground:"@ + self.ground.written() + ";--color-panel:"@
                + self.panel.written() + ";--color-rule:"@ + self.rule.written() + ";--color-ink:"@
                + self.ink.written() + ";--color-muted:"@ + self.muted.written()
                + ";--color-muted2:"@ + self.muted2.written() + ";--color-accent:"@
                + self.accent.written() + ";--color-ok:"@ + self.ok.written() + ";--color-warn:"@
                + self.warn.written() + ";--color-crit:"@ + self.crit.written() + ";--edge-tint:"@
                + (if self.polarity == Polarity::Dark {
                "255,255,255"@
            } else {
                "0,0,0"@
            }),
    {
        let tint = match self.polarity {
            Polarity::Dark => "255,255,255",
            Polarity::Light => "0,0,0",
        };
        let mut out = "--color-ground:".to_string();
        push_colour(&mut out, self.ground);
        out.append(";--color-panel:");
        push_colour(&mut out, self.panel);
        out.append(";--color-rule:");
        push_colour(&mut out, self.rule);
        out.append(";--color-ink:");
        push_colour(&mut out, self.ink);
        out.append(";--color-muted:");
        push_colour(&mut out, self.muted);
        out.append(";--color-muted2:");
        push_colour(&mut out, self.muted2);
        out.append(";--color-accent:");
        push_colour(&mut out, self.accent);
        out.append(";--color-ok:");
        push_colour(&mut out, self.ok);
        out.append(";--color-warn:");
        push_colour(&mut out, self.warn);
        out.append(";--color-crit:");
        push_colour(&mut out, self.crit);
        out.append(";--edge-tint:");
        out.append(tint);
        out
    }
}

// ── what is shown on what ──────────────────────────────────────────────

/// The backgrounds that are mixed rather than stated.
#[derive(Debug, Clone, Copy, PartialEq, Eq, Structural)]
pub struct Raised {
    pub playing_row: Rgb,
    pub playing_row_hover: Rgb,
    pub active_pill: Rgb,
    pub selected_card: Rgb,
}

/// A colour that is shown on another, and what the two are called.
#[derive(Debug, Clone, Copy, PartialEq, Eq)]
pub struct Pair {
    pub fg: &'static str,
    pub fg_colour: Rgb,
    pub bg: &'static str,
    pub bg_colour: Rgb,
}

impl View for Pair {
    type V = (Seq<char>, Rgb, Seq<char>, Rgb);

    open spec fn view(&self) -> (Seq<char>, Rgb, Seq<char>, Rgb) {
        (self.fg@, self.fg_colour, self.bg@, self.bg_colour)
    }
}

/// What pairs are called, and their colours.
pub open spec fn pair_views(pairs: Seq<Pair>) -> Seq<(Seq<char>, Rgb, Seq<char>, Rgb)> {
    pairs.map_values(|p: Pair| p@)
}

impl Theme {
    /// What is shown on a stated background.
    pub open spec fn on_base(self, bg: Seq<char>, colour: Rgb) -> Seq<
        (Seq<char>, Rgb, Seq<char>, Rgb),
    > {
        seq![
            ("ink"@, self.ink, bg, colour),
            ("muted"@, self.muted, bg, colour),
            ("accent"@, self.accent, bg, colour),
            ("ok"@, self.ok, bg, colour),
            ("warn"@, self.warn, bg, colour),
            ("crit"@, self.crit, bg, colour),
        ]
    }

    /// What is shown on a mixed background.
    pub open spec fn on_raised(self, bg: Seq<char>, colour: Rgb) -> Seq<
        (Seq<char>, Rgb, Seq<char>, Rgb),
    > {
        seq![("ink"@, self.ink, bg, colour), ("muted2"@, self.muted2, bg, colour)]
    }

    fn push_on_base(&self, out: &mut Vec<Pair>, bg: &'static str, bg_colour: Rgb)
        ensures
            pair_views(final(out)@) == pair_views(old(out)@) + self.on_base(bg@, bg_colour),
    {
        out.push(Pair { fg: "ink", fg_colour: self.ink, bg, bg_colour });
        out.push(Pair { fg: "muted", fg_colour: self.muted, bg, bg_colour });
        out.push(Pair { fg: "accent", fg_colour: self.accent, bg, bg_colour });
        out.push(Pair { fg: "ok", fg_colour: self.ok, bg, bg_colour });
        out.push(Pair { fg: "warn", fg_colour: self.warn, bg, bg_colour });
        out.push(Pair { fg: "crit", fg_colour: self.crit, bg, bg_colour });
        assert(pair_views(out@) =~= pair_views(old(out)@) + self.on_base(bg@, bg_colour));
    }

    fn push_on_raised(&self, out: &mut Vec<Pair>, bg: &'static str, bg_colour: Rgb)
        ensures
            pair_views(final(out)@) == pair_views(old(out)@) + self.on_raised(bg@, bg_colour),
    {
        out.push(Pair { fg: "ink", fg_colour: self.ink, bg, bg_colour });
        out.push(Pair { fg: "muted2", fg_colour: self.muted2, bg, bg_colour });
        assert(pair_views(out@) =~= pair_views(old(out)@) + self.on_raised(bg@, bg_colour));
    }

    /// Every colour that is shown on another, in the order they are measured.
    pub fn pairs(&self, raised: Raised) -> (r: Vec<Pair>)
        ensures
            pair_views(r@) == self.on_base("ground"@, self.ground) + self.on_base(
                "panel"@,
                self.panel,
            ) + self.on_raised("playing row"@, raised.playing_row) + self.on_raised(
                "playing row hover"@,
                raised.playing_row_hover,
            ) + self.on_raised("active pill"@, raised.active_pill) + self.on_raised(
                "selected card"@,
                raised.selected_card,
            ),
            r@.len() == 20,
    {
        let mut out: Vec<Pair> = Vec::new();
        self.push_on_base(&mut out, "ground", self.ground);
        assert(pair_views(out@) =~= self.on_base("ground"@, self.ground));
        self.push_on_base(&mut out, "panel", self.panel);
        self.push_on_raised(&mut out, "playing row", raised.playing_row);
        self.push_on_raised(&mut out, "playing row hover", raised.playing_row_hover);
        self.push_on_raised(&mut out, "active pill", raised.active_pill);
        self.push_on_raised(&mut out, "selected card", raised.selected_card);
        assert(pair_views(out@).len() == out@.len());
        out
    }
}

fn push_colour(out: &mut String, c: Rgb)
    ensures
        final(out)@ == old(out)@ + c.written(),
{
    let shown = c.hex();
    out.append(shown.as_str());
}

// ── the themes there are ───────────────────────────────────────────────

/// The theme that is used when no other is.
pub const DEFAULT_THEME_ID: &'static str = "capsule";

/// The default theme.
pub open spec fn is_capsule(t: Theme) -> bool {
    &&& t.id@ == DEFAULT_THEME_ID@
    &&& t.name@ == "capsule"@
    &&& t.polarity == Polarity::Dark
    &&& t.ground == (Rgb { r: 0x0d, g: 0x10, b: 0x14 })
    &&& t.panel == (Rgb { r: 0x15, g: 0x1a, b: 0x1f })
    &&& t.rule == (Rgb { r: 0x24, g: 0x2c, b: 0x35 })
    &&& t.ink == (Rgb { r: 0xcc, g: 0xd3, b: 0xdb })
    &&& t.muted == (Rgb { r: 0x78, g: 0x84, b: 0x8f })
    &&& t.muted2 == (Rgb { r: 0x87, g: 0x92, b: 0x9d })
    &&& t.accent == (Rgb { r: 0x9c, g: 0x8f, b: 0xc0 })
    &&& t.ok == (Rgb { r: 0x62, g: 0xa6, b: 0x88 })
    &&& t.warn == (Rgb { r: 0xc0, g: 0x9a, b: 0x5f })
    &&& t.crit == (Rgb { r: 0xc6, g: 0x6d, b: 0x60 })
}

/// The built-in default theme.
pub fn default_theme() -> (r: Theme)
    ensures
        is_capsule(r),
{
    Theme {
        id: DEFAULT_THEME_ID.to_string(),
        name: "capsule".to_string(),
        polarity: Polarity::Dark,
        ground: Rgb { r: 0x0d, g: 0x10, b: 0x14 },
        panel: Rgb { r: 0x15, g: 0x1a, b: 0x1f },
        rule: Rgb { r: 0x24, g: 0x2c, b: 0x35 },
        ink: Rgb { r: 0xcc, g: 0xd3, b: 0xdb },
        muted: Rgb { r: 0x78, g: 0x84, b: 0x8f },
        muted2: Rgb { r: 0x87, g: 0x92, b: 0x9d },
        accent: Rgb { r: 0x9c, g: 0x8f, b: 0xc0 },
        ok: Rgb { r: 0x62, g: 0xa6, b: 0x88 },
        warn: Rgb { r: 0xc0, g: 0x9a, b: 0x5f },
        crit: Rgb { r: 0xc6, g: 0x6d, b: 0x60 },
    }
}

/// A warm dark theme.
pub open spec fn is_ember(t: Theme) -> bool {
    &&& t.id@ == "ember"@
    &&& t.name@ == "Ember"@
    &&& t.polarity == Polarity::Dark
    &&& t.ground == (Rgb { r: 0x14, g: 0x10, b: 0x0d })
    &&& t.panel == (Rgb { r: 0x1f, g: 0x1a, b: 0x15 })
    &&& t.rule == (Rgb { r: 0x32, g: 0x2c, b: 0x27 })
    &&& t.ink == (Rgb { r: 0xd8, g: 0xcf, b: 0xc6 })
    &&& t.muted == (Rgb { r: 0x8a, g: 0x83, b: 0x7c })
    &&& t.muted2 == (Rgb { r: 0x98, g: 0x91, b: 0x89 })
    &&& t.accent == (Rgb { r: 0xc9, g: 0xa1, b: 0x84 })
    &&& t.ok == (Rgb { r: 0x62, g: 0xa6, b: 0x88 })
    &&& t.warn == (Rgb { r: 0xc0, g: 0x9a, b: 0x5f })
    &&& t.crit == (Rgb { r: 0xc6, g: 0x6d, b: 0x60 })
}

/// A warm dark theme.
fn ember() -> (r: Theme)
    ensures
        is_ember(r),
{
    Theme {
        id: "ember".to_string(),
        name: "Ember".to_string(),
        polarity: Polarity::Dark,
        ground: Rgb { r: 0x14, g: 0x10, b: 0x0d },
        panel: Rgb { r: 0x1f, g: 0x1a, b: 0x15 },
        rule: Rgb { r: 0x32, g: 0x2c, b: 0x27 },
        ink: Rgb { r: 0xd8, g: 0xcf, b: 0xc6 },
        muted: Rgb { r: 0x8a, g: 0x83, b: 0x7c },
        muted2: Rgb { r: 0x98, g: 0x91, b: 0x89 },
        accent: Rgb { r: 0xc9, g: 0xa1, b: 0x84 },
        ok: Rgb { r: 0x62, g: 0xa6, b: 0x88 },
        warn: Rgb { r: 0xc0, g: 0x9a, b: 0x5f },
        crit: Rgb { r: 0xc6, g: 0x6d, b: 0x60 },
    }
}

/// A light theme.
pub open spec fn is_paper(t: Theme) -> bool {
    &&& t.id@ == "paper"@
    &&& t.name@ == "Paper"@
    &&& t.polarity == Polarity::Light
    &&& t.ground == (Rgb { r: 0xf4, g: 0xf2, b: 0xee })
    &&& t.panel == (Rgb { r: 0xea, g: 0xe7, b: 0xe1 })
    &&& t.rule == (Rgb { r: 0xd7, g: 0xd4, b: 0xce })
    &&& t.ink == (Rgb { r: 0x2a, g: 0x27, b: 0x24 })
    &&& t.muted == (Rgb { r: 0x69, g: 0x66, b: 0x63 })
    &&& t.muted2 == (Rgb { r: 0x60, g: 0x5d, b: 0x5a })
    &&& t.accent == (Rgb { r: 0x5a, g: 0x4b, b: 0x8a })
    &&& t.ok == (Rgb { r: 0x20, g: 0x61, b: 0x3f })
    &&& t.warn == (Rgb { r: 0x6f, g: 0x51, b: 0x15 })
    &&& t.crit == (Rgb { r: 0x99, g: 0x33, b: 0x26 })
}

/// A light theme.
fn paper() -> (r: Theme)
    ensures
        is_paper(r),
{
    Theme {
        id: "paper".to_string(),
        name: "Paper".to_string(),
        polarity: Polarity::Light,
        ground: Rgb { r: 0xf4, g: 0xf2, b: 0xee },
        panel: Rgb { r: 0xea, g: 0xe7, b: 0xe1 },
        rule: Rgb { r: 0xd7, g: 0xd4, b: 0xce },
        ink: Rgb { r: 0x2a, g: 0x27, b: 0x24 },
        muted: Rgb { r: 0x69, g: 0x66, b: 0x63 },
        muted2: Rgb { r: 0x60, g: 0x5d, b: 0x5a },
        accent: Rgb { r: 0x5a, g: 0x4b, b: 0x8a },
        ok: Rgb { r: 0x20, g: 0x61, b: 0x3f },
        warn: Rgb { r: 0x6f, g: 0x51, b: 0x15 },
        crit: Rgb { r: 0x99, g: 0x33, b: 0x26 },
    }
}

/// A cool dark theme.
pub open spec fn is_slate(t: Theme) -> bool {
    &&& t.id@ == "slate"@
    &&& t.name@ == "Slate"@
    &&& t.polarity == Polarity::Dark
    &&& t.ground == (Rgb { r: 0x10, g: 0x15, b: 0x1b })
    &&& t.panel == (Rgb { r: 0x18, g: 0x20, b: 0x29 })
    &&& t.rule == (Rgb { r: 0x2a, g: 0x32, b: 0x3b })
    &&& t.ink == (Rgb { r: 0xcf, g: 0xd8, b: 0xe1 })
    &&& t.muted == (Rgb { r: 0x81, g: 0x88, b: 0x90 })
    &&& t.muted2 == (Rgb { r: 0x91, g: 0x98, b: 0xa0 })
    &&& t.accent == (Rgb { r: 0x84, g: 0xa9, b: 0xc9 })
    &&& t.ok == (Rgb { r: 0x62, g: 0xa6, b: 0x88 })
    &&& t.warn == (Rgb { r: 0xc0, g: 0x9a, b: 0x5f })
    &&& t.crit == (Rgb { r: 0xc6, g: 0x6d, b: 0x60 })
}

/// A cool dark theme.
fn slate() -> (r: Theme)
    ensures
        is_slate(r),
{
    Theme {
        id: "slate".to_string(),
        name: "Slate".to_string(),
        polarity: Polarity::Dark,
        ground: Rgb { r: 0x10, g: 0x15, b: 0x1b },
        panel: Rgb { r: 0x18, g: 0x20, b: 0x29 },
        rule: Rgb { r: 0x2a, g: 0x32, b: 0x3b },
        ink: Rgb { r: 0xcf, g: 0xd8, b: 0xe1 },
        muted: Rgb { r: 0x81, g: 0x88, b: 0x90 },
        muted2: Rgb { r: 0x91, g: 0x98, b: 0xa0 },
        accent: Rgb { r: 0x84, g: 0xa9, b: 0xc9 },
        ok: Rgb { r: 0x62, g: 0xa6, b: 0x88 },
        warn: Rgb { r: 0xc0, g: 0x9a, b: 0x5f },
        crit: Rgb { r: 0xc6, g: 0x6d, b: 0x60 },
    }
}

/// What the built-in themes are known by: their ids, their names, whether they are
/// dark, and the colours that the rest is worked out from.
pub proof fn lemma_presets(t: Theme)
    ensures
        is_capsule(t) ==> t.id@ == "capsule"@ && t.name@ == "capsule"@ && t.polarity
            == Polarity::Dark && t.ground == (Rgb { r: 0x0d, g: 0x10, b: 0x14 }) && t.panel == (Rgb {
            r: 0x15,
            g: 0x1a,
            b: 0x1f,
        }) && t.rule == (Rgb { r: 0x24, g: 0x2c, b: 0x35 }) && t.ink == (Rgb {
            r: 0xcc,
            g: 0xd3,
            b: 0xdb,
        }) && t.muted == (Rgb { r: 0x78, g: 0x84, b: 0x8f }) && t.muted2 == (Rgb {
            r: 0x87,
            g: 0x92,
            b: 0x9d,
        }) && t.accent == (Rgb { r: 0x9c, g: 0x8f, b: 0xc0 }),
        is_ember(t) ==> t.id@ == "ember"@ && t.name@ == "Ember"@ && t.polarity == Polarity::Dark
            && t.ground == (Rgb { r: 0x14, g: 0x10, b: 0x0d }) && t.panel == (Rgb {
            r: 0x1f,
            g: 0x1a,
            b: 0x15,
        }) && t.ink == (Rgb { r: 0xd8, g: 0xcf, b: 0xc6 }) && t.accent == (Rgb {
            r: 0xc9,
            g: 0xa1,
            b: 0x84,
        }),
        is_paper(t) ==> t.id@ == "paper"@ && t.name@ == "Paper"@ && t.polarity == Polarity::Light
            && t.ground == (Rgb { r: 0xf4, g: 0xf2, b: 0xee }) && t.panel == (Rgb {
            r: 0xea,
            g: 0xe7,
            b: 0xe1,
        }) && t.ink == (Rgb { r: 0x2a, g: 0x27, b: 0x24 }) && t.accent == (Rgb {
            r: 0x5a,
            g: 0x4b,
            b: 0x8a,
        }),
        is_slate(t) ==> t.id@ == "slate"@ && t.name@ == "Slate"@ && t.polarity == Polarity::Dark,
        is_capsule(t) || is_ember(t) || is_slate(t) ==> t.ok == (Rgb { r: 0x62, g: 0xa6, b: 0x88 })
            && t.warn == (Rgb { r: 0xc0, g: 0x9a, b: 0x5f }) && t.crit == (Rgb {
            r: 0xc6,
            g: 0x6d,
            b: 0x60,
        }),
        is_paper(t) ==> t.ok == (Rgb { r: 0x20, g: 0x61, b: 0x3f }) && t.warn == (Rgb {
            r: 0x6f,
            g: 0x51,
            b: 0x15,
        }) && t.crit == (Rgb { r: 0x99, g: 0x33, b: 0x26 }),
{
}

/// The built-in themes, the default one first.
pub fn presets() -> (r: Vec<Theme>)
    ensures
        r@.len() == 4,
        is_capsule(r@[0]),
        is_ember(r@[1]),
        is_paper(r@[2]),
        is_slate(r@[3]),
        distinct(r@),
{
    proof {
        reveal_strlit("capsule");
        reveal_strlit("ember");
        reveal_strlit("paper");
        reveal_strlit("slate");
    }
    let all = vec![default_theme(), ember(), paper(), slate()];
    assert(all@[0].id@[0] == 'c');
    assert(all@[1].id@[0] == 'e');
    assert(all@[2].id@[0] == 'p');
    assert(all@[3].id@[0] == 's');
    all
}

/// The name of the directory of user themes.
pub const THEMES_DIR: &'static str = "themes";

/// Where user themes are.
pub fn themes_dir(app_data: &str) -> (r: String)
    ensures
        outside::is_adjoined(app_data@, THEMES_DIR@, r@),
{
    proof {
        reveal_strlit("themes");
    }
    outside::path_join(app_data, THEMES_DIR)
}

/// The id of the theme that a file of the directory holds, by its extension and
/// its stem; `None` if it is no theme file.
pub fn theme_id(extension: Option<String>, stem: Option<String>) -> (r: Option<String>)
    ensures
        r == (if extension is Some && extension->0@ == "toml"@ {
            stem
        } else {
            None
        }),
{
    match extension {
        Some(e) => if text::same(e.as_str(), "toml") {
            stem
        } else {
            None
        },
        None => None,
    }
}

/// The id of the theme that a file of the directory holds.
pub fn theme_file_id(path: &str) -> (r: Option<String>)
    ensures
        outside::is_simple_path(path@) ==> text::view_of(r) == (if outside::slash_extension(path@)
            == Some("toml"@) {
            outside::slash_stem(path@)
        } else {
            None
        }),
        outside::has_name(path@) ==> match r {
            Some(id) => outside::is_stem_in(path@, id@) && outside::is_extension_in(
                path@,
                Some("toml"@),
            ),
            None => outside::is_doubled(path@) || exists|ext: Option<Seq<char>>| #[trigger]
                outside::is_extension_in(path@, ext) && ext != Some("toml"@),
        },
        outside::has_name(path@) && outside::has_dotted_name(path@) ==> (r is Some
            <==> outside::extension_of(outside::name_tail(path@)) == Some("toml"@)),
{
    let ext = outside::path_extension(path);
    let stem = outside::path_stem(path);
    assert(outside::has_name(path@) ==> outside::is_extension_in(path@, text::view_of(ext)));
    theme_id(ext, stem)
}

/// Whether theme `i` is the first one with an id.
pub open spec fn first_theme(all: Seq<Theme>, id: Seq<char>, i: int) -> bool {
    &&& 0 <= i < all.len()
    &&& all[i].id@ == id
    &&& forall|j: int| 0 <= j < i ==> (#[trigger] all[j]).id@ != id
}

/// Whether there is no theme with an id.
pub open spec fn no_theme(all: Seq<Theme>, id: Seq<char>) -> bool {
    forall|j: int| 0 <= j < all.len() ==> (#[trigger] all[j]).id@ != id
}

fn find_theme(all: &Vec<Theme>, id: &str) -> (r: Option<usize>)
    ensures
        match r {
            Some(i) => first_theme(all@, id@, i as int),
            None => no_theme(all@, id@),
        },
{
    let mut i: usize = 0;
    while i < all.len()
        invariant
            i <= all@.len(),
            forall|j: int| 0 <= j < i ==> (#[trigger] all@[j]).id@ != id@,
        decreases all@.len() - i,
    {
        if text::same(all[i].id.as_str(), id) {
            return Some(i);
        }
        i += 1;
    }
    None
}

/// Adds a user's theme. One named after a theme that is there takes its place.
pub fn add_theme(all: &mut Vec<Theme>, theme: Theme)
    ensures
        no_theme(old(all)@, theme.id@) ==> final(all)@ == old(all)@.push(theme),
        !no_theme(old(all)@, theme.id@) ==> exists|i: int| #[trigger]
            first_theme(old(all)@, theme.id@, i) && final(all)@ == old(all)@.update(i, theme),
{
    match find_theme(all, theme.id.as_str()) {
        Some(i) => {
            assert(first_theme(all@, theme.id@, i as int));
            assert(!no_theme(all@, theme.id@));
            all.set(i, theme);
        },
        None => {
            all.push(theme);
        },
    }
}

/// The ids of themes.
pub open spec fn ids(all: Seq<Theme>) -> Seq<Seq<char>> {
    all.map_values(|t: Theme| t.id@)
}

/// No id occurs twice.
pub open spec fn distinct(all: Seq<Theme>) -> bool {
    forall|i: int, j: int|
        0 <= i < j < all.len() ==> (#[trigger] all[i]).id@ != (#[trigger] all[j]).id@
}

/// A user's theme that takes another's place adds none, and no id comes to occur
/// twice.
pub proof fn lemma_shadowing_adds_none(before: Seq<Theme>, theme: Theme, i: int)
    requires
        distinct(before),
        first_theme(before, theme.id@, i),
    ensures
        before.update(i, theme).len() == before.len(),
        ids(before.update(i, theme)) == ids(before),
        distinct(before.update(i, theme)),
{
    assert(ids(before.update(i, theme)) =~= ids(before));
    assert forall|a: int, b: int| 0 <= a < b < before.len() implies (
    #[trigger] before.update(i, theme)[a]).id@ != (#[trigger] before.update(i, theme)[b]).id@ by {
        assert(before[a].id@ != before[b].id@);
    }
}

/// Themes by id.
pub fn sort_themes(all: &Vec<Theme>) -> (r: Vec<Theme>)
    ensures
        r@.len() == all@.len(),
        exists|p: Seq<int>| #[trigger]
            order::is_stable_text_order(ids(all@), p) && forall|k: int|
                0 <= k < r@.len() ==> #[trigger] r@[k] == all@[p[k]],
{
    let mut keys: Vec<String> = Vec::new();
    let mut i: usize = 0;
    while i < all.len()
        invariant
            i <= all@.len(),
            keys@.len() == i,
            forall|k: int| 0 <= k < i ==> (#[trigger] keys@[k])@ == all@[k].id@,
        decreases all@.len() - i,
    {
        keys.push(all[i].id.clone());
        i += 1;
    }
    let ord = order::stable_text_order(&keys);
    let ghost p = order::places(ord@);
    assert(text::views(keys@) =~= ids(all@));
    let mut out: Vec<Theme> = Vec::new();
    let mut k: usize = 0;
    while k < ord.len()
        invariant
            p == order::places(ord@),
            order::is_stable_text_order(ids(all@), p),
            k <= ord@.len(),
            out@.len() == k,
            forall|m: int| 0 <= m < out@.len() ==> #[trigger] out@[m] == all@[p[m]],
        decreases ord@.len() - k,
    {
        let at: usize = ord[k];
        assert(p[k as int] == at);
        assert(at < ids(all@).len());
        out.push(all[at].clone());
        k += 1;
    }
    out
}

/// The theme with an id; the default one if there is none, and the built-in one
/// if that is gone too.
pub fn resolve(all: &Vec<Theme>, id: &str) -> (r: Theme)
    ensures
        if !no_theme(all@, id@) {
            exists|i: int| first_theme(all@, id@, i) && r == all@[i]
        } else if !no_theme(all@, DEFAULT_THEME_ID@) {
            exists|i: int| first_theme(all@, DEFAULT_THEME_ID@, i) && r == all@[i]
        } else {
            is_capsule(r)
        },
{
    if let Some(i) = find_theme(all, id) {
        assert(first_theme(all@, id@, i as int));
        return all[i].clone();
    }
    match find_theme(all, DEFAULT_THEME_ID) {
        Some(i) => {
            assert(first_theme(all@, DEFAULT_THEME_ID@, i as int));
            all[i].clone()
        },
        None => default_theme(),
    }
}

/// Whether a list has a theme is told by the ids alone, and the first with an id
/// is the one that goes by it.
pub proof fn lemma_found_by_id(all: Seq<Theme>, id: Seq<char>, i: int, j: int)
    requires
        0 <= j < all.len(),
    ensures
        all[j].id@ == id ==> !no_theme(all, id),
        first_theme(all, id, i) ==> 0 <= i < all.len() && all[i].id@ == id,
        first_theme(all, id, i) && all[j].id@ == id ==> i <= j,
        DEFAULT_THEME_ID@ == "capsule"@,
{
}

/// The fault that is told of is the first: the colours that must be there go before
/// the others, and each is told of by its own name.
pub proof fn lemma_first_fault(w: Wire)
    ensures
        ({
            let ground = w.ground is Some && parsed(w.ground->0@) is Some;
            let panel = ground && w.panel is Some && parsed(w.panel->0@) is Some;
            let ink = panel && w.ink is Some && parsed(w.ink->0@) is Some;
            let accent = ink && w.accent is Some && parsed(w.accent->0@) is Some;
            let rule = accent && (w.rule is None || parsed(w.rule->0@) is Some);
            let muted = rule && (w.muted is None || parsed(w.muted->0@) is Some);
            let ok = muted && (w.ok is None || parsed(w.ok->0@) is Some);
            let warn = ok && (w.warn is None || parsed(w.warn->0@) is Some);
            let crit = warn && (w.crit is None || parsed(w.crit->0@) is Some);
            &&& w.ground is None ==> fault(w) == Some(ThemeError::Missing("ground"))
            &&& w.ground is Some && !ground ==> fault(w) == Some(
                ThemeError::BadColour("ground", w.ground->0),
            )
            &&& ground && w.panel is None ==> fault(w) == Some(ThemeError::Missing("panel"))
            &&& ground && w.panel is Some && !panel ==> fault(w) == Some(
                ThemeError::BadColour("panel", w.panel->0),
            )
            &&& panel && w.ink is None ==> fault(w) == Some(ThemeError::Missing("ink"))
            &&& panel && w.ink is Some && !ink ==> fault(w) == Some(
                ThemeError::BadColour("ink", w.ink->0),
            )
            &&& ink && w.accent is None ==> fault(w) == Some(ThemeError::Missing("accent"))
            &&& ink && w.accent is Some && !accent ==> fault(w) == Some(
                ThemeError::BadColour("accent", w.accent->0),
            )
            &&& accent && !rule ==> fault(w) == Some(ThemeError::BadColour("rule", w.rule->0))
            &&& rule && !muted ==> fault(w) == Some(ThemeError::BadColour("muted", w.muted->0))
            &&& muted && !ok ==> fault(w) == Some(ThemeError::BadColour("ok", w.ok->0))
            &&& ok && !warn ==> fault(w) == Some(ThemeError::BadColour("warn", w.warn->0))
            &&& warn && !crit ==> fault(w) == Some(ThemeError::BadColour("crit", w.crit->0))
            &&& crit ==> fault(w) is None
        }),
{
}

/// On the two grounds the six text colours are held against them, on a raised one
/// the ink and the second muted colour.
pub proof fn lemma_what_is_held_against_a_ground(t: Theme, bg: Seq<char>, colour: Rgb)
    ensures
        t.on_base(bg, colour).len() == 6,
        t.on_base(bg, colour)[0] == ("ink"@, t.ink, bg, colour),
        t.on_base(bg, colour)[1] == ("muted"@, t.muted, bg, colour),
        t.on_base(bg, colour)[2] == ("accent"@, t.accent, bg, colour),
        t.on_base(bg, colour)[3] == ("ok"@, t.ok, bg, colour),
        t.on_base(bg, colour)[4] == ("warn"@, t.warn, bg, colour),
        t.on_base(bg, colour)[5] == ("crit"@, t.crit, bg, colour),
        t.on_raised(bg, colour).len() == 2,
        t.on_raised(bg, colour)[0] == ("ink"@, t.ink, bg, colour),
        t.on_raised(bg, colour)[1] == ("muted2"@, t.muted2, bg, colour),
{
}

/// Every colour of the four themes that come with the player.
pub proof fn lemma_preset_colours(t: Theme)
    ensures
        is_ember(t) ==> t.ground == (Rgb { r: 0x14, g: 0x10, b: 0x0d })
            && t.panel == (Rgb { r: 0x1f, g: 0x1a, b: 0x15 })
            && t.rule == (Rgb { r: 0x32, g: 0x2c, b: 0x27 })
            && t.ink == (Rgb { r: 0xd8, g: 0xcf, b: 0xc6 })
            && t.muted == (Rgb { r: 0x8a, g: 0x83, b: 0x7c })
            && t.muted2 == (Rgb { r: 0x98, g: 0x91, b: 0x89 })
            && t.accent == (Rgb { r: 0xc9, g: 0xa1, b: 0x84 }),
        is_paper(t) ==> t.ground == (Rgb { r: 0xf4, g: 0xf2, b: 0xee })
            && t.panel == (Rgb { r: 0xea, g: 0xe7, b: 0xe1 })
            && t.rule == (Rgb { r: 0xd7, g: 0xd4, b: 0xce })
            && t.ink == (Rgb { r: 0x2a, g: 0x27, b: 0x24 })
            && t.muted == (Rgb { r: 0x69, g: 0x66, b: 0x63 })
            && t.muted2 == (Rgb { r: 0x60, g: 0x5d, b: 0x5a })
            && t.accent == (Rgb { r: 0x5a, g: 0x4b, b: 0x8a }),
        is_slate(t) ==> t.ground == (Rgb { r: 0x10, g: 0x15, b: 0x1b })
            && t.panel == (Rgb { r: 0x18, g: 0x20, b: 0x29 })
            && t.rule == (Rgb { r: 0x2a, g: 0x32, b: 0x3b })
            && t.ink == (Rgb { r: 0xcf, g: 0xd8, b: 0xe1 })
            && t.muted == (Rgb { r: 0x81, g: 0x88, b: 0x90 })
            && t.muted2 == (Rgb { r: 0x91, g: 0x98, b: 0xa0 })
            && t.accent == (Rgb { r: 0x84, g: 0xa9, b: 0xc9 }),
{
}

/// Themes are listed by their ids, and pairs by the names and colours they hold.
pub proof fn lemma_listed_as_they_are(all: Seq<Theme>, pairs: Seq<Pair>, i: int)
    ensures
        ids(all).len() == all.len(),
        0 <= i < all.len() ==> ids(all)[i] == all[i].id@,
        pair_views(pairs).len() == pairs.len(),
        0 <= i < pairs.len() ==> pair_views(pairs)[i] == (
            pairs[i].fg@,
            pairs[i].fg_colour,
            pairs[i].bg@,
            pairs[i].bg_colour,
        ),
{
}

} // verus!
