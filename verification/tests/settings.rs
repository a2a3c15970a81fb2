use blossom::settings::{Accent, AppSettings};

const TEMPLATE: &str = "a{BLOSSOM_ACCENT}l{BLOSSOM_AL}b{BLOSSOM_AB}r{BLOSSOM_ARGB}\
bd{BLOSSOM_BORDER_RGB}i{BLOSSOM_INPUT}s{BLOSSOM_SURF}f3{BLOSSOM_FG3}f2{BLOSSOM_FG2}f{BLOSSOM_FG}g{BLOSSOM_BG}";

#[test]
fn accent_colors() {
    let c = Accent::Cherry.colors();
    assert_eq!(c.hex, "#c55a74");
    assert_eq!(c.light, "#e8b4be");
    assert_eq!(c.bg, "#fef5f7");
    assert_eq!(c.rgb, "197, 90, 116");
    assert_eq!(c.label, "Cherry");
    assert_eq!(Accent::Mono.colors().hex, "#505050");
    assert_eq!(Accent::Dusk.colors().label, "Dusk");
}

#[test]
fn all_accents_in_order() {
    let all = Accent::all();
    assert_eq!(all, vec![Accent::Cherry, Accent::Wisteria, Accent::Moss, Accent::Dusk, Accent::Ember, Accent::Mono]);
    assert_eq!(Accent::default(), Accent::Cherry);
}

#[test]
fn default_settings() {
    let s = AppSettings::default();
    assert_eq!(s.accent, Accent::Cherry);
    assert!(!s.dark_mode);
}

#[test]
fn css_light_cherry() {
    let s = AppSettings { accent: Accent::Cherry, dark_mode: false };
    assert_eq!(
        s.css(TEMPLATE),
        "a{#c55a74}l{#e8b4be}b{#fef5f7}r{197, 90, 116}bd{100, 60, 40}i{#faf6f1}s{#ede6db}\
f3{#b5a5a1}f2{#7a6b68}f{#2c1f1a}g{#f5efe6}"
    );
}

#[test]
fn css_dark_moss() {
    let s = AppSettings { accent: Accent::Moss, dark_mode: true };
    assert_eq!(
        s.css(TEMPLATE),
        "a{#4a7c59}l{#9fc4a8}b{#f2f8f4}r{74, 124, 89}bd{200, 160, 130}i{#2e2925}s{#231e19}\
f3{#564e48}f2{#9e9087}f{#e8ddd5}g{#1c1814}"
    );
}

#[test]
fn css_leaves_no_placeholder() {
    for a in Accent::all() {
        for dark in [false, true] {
            let s = AppSettings { accent: a, dark_mode: dark };
            let css = s.css(TEMPLATE);
            assert!(!css.contains("BLOSSOM_"));
            assert!(!css.contains('B'));
        }
    }
}

#[test]
fn css_placeholder_at_end_of_template() {
    let s = AppSettings { accent: Accent::Dusk, dark_mode: false };
    assert_eq!(s.css("x:BLOSSOM_BG"), "x:#f5efe6");
    assert_eq!(s.css("BLOSSOM_ACCENT"), "#4a6fa5");
}

#[test]
fn css_overlapping_tokens() {
    // The second token starts inside the first one: only the second is filled.
    let s = AppSettings { accent: Accent::Cherry, dark_mode: false };
    assert_eq!(s.css("BLOSSOM_ABLOSSOM_AL"), "BLOSSOM_A#e8b4be");
}

#[test]
fn css_adjacent_tokens_can_merge() {
    // The border colour "200, ..." makes "BLOSSOM_FG2" out of "BLOSSOM_FG".
    let s = AppSettings { accent: Accent::Cherry, dark_mode: true };
    assert_eq!(s.css("BLOSSOM_FGBLOSSOM_BORDER_RGB"), "#9e908700, 160, 130");
}

#[test]
fn accent_rgb_is_the_hex_in_decimal() {
    let mut labels: Vec<&str> = Vec::new();
    let mut hexes: Vec<&str> = Vec::new();
    for a in Accent::all() {
        let c = a.colors();
        let byte = |i: usize| u8::from_str_radix(&c.hex[i..i + 2], 16).unwrap();
        assert_eq!(c.rgb, format!("{}, {}, {}", byte(1), byte(3), byte(5)));
        assert!(!labels.contains(&c.label));
        assert!(!hexes.contains(&c.hex));
        labels.push(c.label);
        hexes.push(c.hex);
    }
    assert_eq!(labels, vec!["Cherry", "Wisteria", "Moss", "Dusk", "Ember", "Mono"]);
}

#[test]
fn css_template_with_digits_and_capitals() {
    let s = AppSettings { accent: Accent::Ember, dark_mode: true };
    let t = "H1_TITLE { font-weight: 700; color: BLOSSOM_ACCENT; }\n\
.X9 { border: 1px solid rgba(BLOSSOM_BORDER_RGB, 0.15); background: BLOSSOM_BG }";
    let css = s.css(t);
    assert_eq!(
        css,
        "H1_TITLE { font-weight: 700; color: #c05c2a; }\n\
.X9 { border: 1px solid rgba(200, 160, 130, 0.15); background: #1c1814 }"
    );
    assert!(!css.contains("BLOSSOM_"));
}
