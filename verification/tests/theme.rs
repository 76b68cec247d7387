use capsule::theme::{
    add_theme, default_theme, presets, read_colours, resolve, sort_themes, theme_file_id, theme_id,
    themes_dir, Colours, Mixed, Pair, Polarity, Raised, Rgb, Theme, ThemeError, Wire, DEFAULT_THEME_ID,
};

fn rgb(s: &str) -> Rgb {
    Rgb::parse(s).expect("valid hex")
}

#[test]
fn parses_and_formats_hex() {
    assert_eq!(rgb("#0d1014"), Rgb { r: 13, g: 16, b: 20 });
    assert_eq!(rgb("0d1014"), Rgb { r: 13, g: 16, b: 20 });
    assert_eq!(rgb("#0D1014").hex(), "#0d1014");
    assert!(Rgb::parse("nope").is_none());
    assert!(Rgb::parse("#12345").is_none());
}

#[test]
fn colours_may_be_written_loosely() {
    assert_eq!(Rgb::parse("  ##ffFF00 "), Some(Rgb { r: 255, g: 255, b: 0 }));
    assert!(Rgb::parse("#12345g").is_none());
    assert!(Rgb::parse("#1234567").is_none());
    assert_eq!(Rgb { r: 0, g: 9, b: 255 }.hex(), "#0009ff");
}

const CAPSULE_MINIMAL: &str = r##"
name   = "capsule"
ground = "#0d1014"
panel  = "#151a1f"
ink    = "#ccd3db"
accent = "#9c8fc0"
"##;

fn wire(raw: &str) -> Wire {
    let t: toml::Table = raw.parse().unwrap();
    let get = |k: &str| t.get(k).and_then(|v| v.as_str()).map(|s| s.to_string());
    Wire {
        name: get("name"),
        ground: get("ground"),
        panel: get("panel"),
        ink: get("ink"),
        accent: get("accent"),
        rule: get("rule"),
        muted: get("muted"),
        ok: get("ok"),
        warn: get("warn"),
        crit: get("crit"),
    }
}

fn colours(raw: &str) -> Colours {
    match read_colours(wire(raw)) {
        Ok(c) => c,
        Err(e) => panic!("{}", e.message()),
    }
}

fn mixed(polarity: Polarity) -> Mixed {
    Mixed { polarity, rule: rgb("#111111"), muted: rgb("#222222"), muted2: rgb("#333333") }
}

#[test]
fn a_missing_required_field_names_the_field() {
    let raw = CAPSULE_MINIMAL.replace("ink    = \"#ccd3db\"\n", "");
    let err = read_colours(wire(&raw)).err().unwrap().message();
    assert!(err.contains("ink"), "got {err}");
    assert_eq!(err, "missing required field: ink");
}

#[test]
fn a_bad_colour_names_the_field() {
    let raw = CAPSULE_MINIMAL.replace("#9c8fc0", "octarine");
    let err = read_colours(wire(&raw)).err().unwrap().message();
    assert!(err.contains("accent"), "got {err}");
    assert_eq!(err, "field accent is not a hex colour: octarine");
}

#[test]
fn the_first_fault_is_the_one_reported() {
    let raw = CAPSULE_MINIMAL.replace("#0d1014", "x").replace("#9c8fc0", "octarine");
    let err = read_colours(wire(&raw)).err().unwrap();
    assert_eq!(err, ThemeError::BadColour("ground", "x".into()));
    let err = read_colours(wire(&format!("{CAPSULE_MINIMAL}\ncrit = \"y\"\n"))).err().unwrap();
    assert_eq!(err, ThemeError::BadColour("crit", "y".into()));
    assert_eq!(ThemeError::Toml("z".into()).message(), "could not parse theme file: z");
}

#[test]
fn stated_optionals_win_over_derivation() {
    let raw = format!("{CAPSULE_MINIMAL}\nrule = \"#010203\"\n");
    let t = Theme::assemble("capsule", colours(&raw), mixed(Polarity::Dark));
    assert_eq!(t.rule.hex(), "#010203");
    assert_eq!(t.muted.hex(), "#222222", "what is not stated is mixed");
}

#[test]
fn muted2_is_derived_not_read_from_the_file() {
    let raw = format!("{CAPSULE_MINIMAL}\nmuted2 = \"#ff0000\"\n");
    let t = Theme::assemble("capsule", colours(&raw), mixed(Polarity::Dark));
    assert_eq!(t.muted2.hex(), "#333333", "muted2 is not authorable");
}

#[test]
fn the_name_falls_back_to_the_id() {
    let raw = CAPSULE_MINIMAL.replace("name   = \"capsule\"\n", "");
    let t = Theme::assemble("ember", colours(&raw), mixed(Polarity::Dark));
    assert_eq!(t.name, "ember");
}

#[test]
fn signal_colours_follow_polarity() {
    let dark = Theme::assemble("d", colours(CAPSULE_MINIMAL), mixed(Polarity::Dark));
    assert_eq!(
        (dark.ok.hex(), dark.warn.hex(), dark.crit.hex()),
        ("#62a688".to_string(), "#c09a5f".to_string(), "#c66d60".to_string())
    );
    let light = Theme::assemble("l", colours(CAPSULE_MINIMAL), mixed(Polarity::Light));
    assert_eq!(
        (light.ok.hex(), light.warn.hex(), light.crit.hex()),
        ("#20613f".to_string(), "#6f5115".to_string(), "#993326".to_string())
    );
    assert!(dark.is_dark());
    assert!(!light.is_dark());
}

#[test]
fn four_presets_ship_and_capsule_is_one_of_them() {
    let all = presets();
    assert_eq!(all.len(), 4);
    assert!(all.iter().any(|t| t.id == DEFAULT_THEME_ID));
    let ids: Vec<String> = all.into_iter().map(|t| t.id).collect();
    assert_eq!(ids, vec!["capsule", "ember", "paper", "slate"]);
}

#[test]
fn one_preset_is_light() {
    assert!(presets().iter().any(|t| t.polarity == Polarity::Light));
}

fn channel(v: u8) -> f64 {
    let c = f64::from(v) / 255.0;
    if c <= 0.03928 {
        c / 12.92
    } else {
        ((c + 0.055) / 1.055).powf(2.4)
    }
}

fn luminance(c: Rgb) -> f64 {
    0.2126 * channel(c.r) + 0.7152 * channel(c.g) + 0.0722 * channel(c.b)
}

fn contrast(a: Rgb, b: Rgb) -> f64 {
    let (x, y) = (luminance(a), luminance(b));
    (x.max(y) + 0.05) / (x.min(y) + 0.05)
}

fn mix(a: Rgb, b: Rgb, t: f64) -> Rgb {
    let step = |x: u8, y: u8| (f64::from(x) + (f64::from(y) - f64::from(x)) * t).round() as u8;
    Rgb { r: step(a.r, b.r), g: step(a.g, b.g), b: step(a.b, b.b) }
}

#[test]
fn every_shipped_preset_clears_aa() {
    for t in presets() {
        let pairs = t.pairs(Raised {
            playing_row: mix(t.ground, t.accent, 0.12),
            playing_row_hover: mix(t.ground, t.accent, 0.16),
            active_pill: mix(t.panel, t.ink, 0.09),
            selected_card: mix(t.panel, t.accent, 0.08),
        });
        assert_eq!(pairs.len(), 20);
        for p in pairs {
            let ratio = contrast(p.fg_colour, p.bg_colour);
            assert!(ratio >= 4.5, "{}: {} on {} is {ratio}", t.id, p.fg, p.bg);
        }
        assert_eq!(t.is_dark(), luminance(t.ground) <= 0.18, "{}", t.id);
    }
}

#[test]
fn pairs_come_background_by_background() {
    let t = default_theme();
    let hue = |n: u8| Rgb { r: n, g: n, b: n };
    let pairs = t.pairs(Raised {
        playing_row: hue(1),
        playing_row_hover: hue(2),
        active_pill: hue(3),
        selected_card: hue(4),
    });
    assert_eq!(
        pairs[0],
        Pair { fg: "ink", fg_colour: t.ink, bg: "ground", bg_colour: t.ground }
    );
    assert_eq!(
        pairs[11],
        Pair { fg: "crit", fg_colour: t.crit, bg: "panel", bg_colour: t.panel }
    );
    let names: Vec<(&str, &str)> = pairs[12..].iter().map(|p| (p.fg, p.bg)).collect();
    assert_eq!(
        names,
        vec![
            ("ink", "playing row"),
            ("muted2", "playing row"),
            ("ink", "playing row hover"),
            ("muted2", "playing row hover"),
            ("ink", "active pill"),
            ("muted2", "active pill"),
            ("ink", "selected card"),
            ("muted2", "selected card"),
        ]
    );
    assert_eq!((pairs[19].fg_colour, pairs[19].bg_colour), (t.muted2, hue(4)));
}

#[test]
fn capsule_reproduces_the_current_palette_exactly() {
    let t = presets().into_iter().find(|t| t.id == "capsule").expect("capsule");
    assert_eq!(t, default_theme());
    assert_eq!(t.id, "capsule");
    assert_eq!(t.ground.hex(), "#0d1014");
    assert_eq!(t.panel.hex(), "#151a1f");
    assert_eq!(t.rule.hex(), "#242c35");
    assert_eq!(t.ink.hex(), "#ccd3db");
    assert_eq!(t.muted.hex(), "#78848f");
    assert_eq!(t.muted2.hex(), "#87929d");
    assert_eq!(t.accent.hex(), "#9c8fc0");
    assert_eq!(t.ok.hex(), "#62a688");
    assert_eq!(t.warn.hex(), "#c09a5f");
    assert_eq!(t.crit.hex(), "#c66d60");
}

#[test]
fn css_carries_every_token_and_the_edge_tint() {
    let t = presets().into_iter().find(|t| t.id == "capsule").expect("capsule");
    let css = t.css();
    for token in [
        "--color-ground",
        "--color-panel",
        "--color-rule",
        "--color-ink",
        "--color-muted",
        "--color-muted2",
        "--color-accent",
        "--color-ok",
        "--color-warn",
        "--color-crit",
        "--edge-tint",
    ] {
        assert!(css.contains(token), "missing {token} in {css}");
    }
    assert!(css.contains("#0d1014"));
    assert!(!css.contains('{'), "css() emits declarations, not a rule block");
}

#[test]
fn edge_tint_follows_polarity() {
    let dark = presets().into_iter().find(|t| t.id == "capsule").expect("capsule");
    assert!(dark.css().contains("--edge-tint:255,255,255"));

    let light = presets().into_iter().find(|t| t.id == "paper").expect("paper");
    assert!(light.css().contains("--edge-tint:0,0,0"));
}

fn named(id: &str, name: &str) -> Theme {
    let mut t = default_theme();
    t.id = id.into();
    t.name = name.into();
    t
}

#[test]
fn a_user_file_shadows_a_preset_of_the_same_id() {
    let mut all = presets();
    let mut mine = named("capsule", "Mine");
    mine.ground = rgb("#000000");
    add_theme(&mut all, mine);
    assert_eq!(all.len(), 4, "shadowing must not add a fifth entry");
    let c = all.iter().find(|t| t.id == "capsule").expect("capsule");
    assert_eq!(c.name, "Mine");
    assert_eq!(c.ground.hex(), "#000000");
    add_theme(&mut all, named("good", "Good"));
    assert_eq!(all.len(), 5);
    assert_eq!(all[4].id, "good");
}

#[test]
fn themes_are_listed_by_id() {
    let all = vec![named("slate", "1"), named("capsule", "2"), named("ember", "3")];
    let ids: Vec<String> = sort_themes(&all).into_iter().map(|t| t.id).collect();
    assert_eq!(ids, vec!["capsule", "ember", "slate"]);
}

#[test]
fn an_unknown_id_resolves_to_the_default() {
    let all = presets();
    assert_eq!(resolve(&all, "nope").id, DEFAULT_THEME_ID);
    assert_eq!(resolve(&all, "paper").id, "paper");
    assert_eq!(resolve(&vec![], "paper"), presets().remove(0));
}

#[test]
fn the_readme_is_not_loaded_as_a_theme() {
    assert_eq!(theme_file_id("/data/themes/README.md"), None);
    assert_eq!(theme_file_id("/data/themes/ember.toml").as_deref(), Some("ember"));
    assert_eq!(theme_file_id("/data/themes/ember.toml/").as_deref(), Some("ember"));
    assert_eq!(theme_file_id("/data/themes/.."), None);
    let id = theme_file_id(r"C:\data\themes\ember.toml").unwrap();
    assert!(id == "ember" || id == r"C:\data\themes\ember", "{id}");
    assert_eq!(theme_file_id(r"C:\data\themes\README.md"), None);
    assert_eq!(theme_id(Some("toml".into()), Some("slate".into())).as_deref(), Some("slate"));
    assert_eq!(theme_id(Some("TOML".into()), Some("slate".into())), None);
    assert_eq!(theme_id(Some("toml".into()), None), None);
    assert!(themes_dir("/data").ends_with("themes"));
}
