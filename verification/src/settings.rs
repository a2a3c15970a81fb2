//! Application-wide settings: accent palette, light/dark theme, and the
//! stylesheet they produce.

use vstd::prelude::*;
use vstd::string::*;
use crate::text::{
    decimal, is_prefix, is_substring, lemma_replace_absent, lemma_replace_concat,
    lemma_replace_whole, replace_all, replace_spec,
};

verus! {

/// The accent presets.
#[derive(Debug, Clone, Copy, PartialEq, Eq, Structural)]
pub enum Accent {
    Cherry,
    Wisteria,
    Moss,
    Dusk,
    Ember,
    Mono,
}

/// The colours of an accent preset.
pub struct AccentColors {
    pub hex: &'static str,
    pub light: &'static str,
    pub bg: &'static str,
    pub rgb: &'static str,
    pub label: &'static str,
}

impl View for AccentColors {
    type V = (Seq<char>, Seq<char>, Seq<char>, Seq<char>, Seq<char>);

    open spec fn view(&self) -> Self::V {
        (self.hex@, self.light@, self.bg@, self.rgb@, self.label@)
    }
}

/// The presets in the order they are offered.
pub open spec fn accent_order() -> Seq<Accent> {
    seq![Accent::Cherry, Accent::Wisteria, Accent::Moss, Accent::Dusk, Accent::Ember, Accent::Mono]
}

/// (hex, light, bg, rgb, label) of each accent preset.
pub open spec fn accent_palette(a: Accent) -> (Seq<char>, Seq<char>, Seq<char>, Seq<char>, Seq<char>) {
    match a {
        Accent::Cherry => ("#c55a74"@, "#e8b4be"@, "#fef5f7"@, "197, 90, 116"@, "Cherry"@),
        Accent::Wisteria => ("#7b5ea7"@, "#c3b0dc"@, "#f7f3fc"@, "123, 94, 167"@, "Wisteria"@),
        Accent::Moss => ("#4a7c59"@, "#9fc4a8"@, "#f2f8f4"@, "74, 124, 89"@, "Moss"@),
        Accent::Dusk => ("#4a6fa5"@, "#9eb8d9"@, "#f2f5fb"@, "74, 111, 165"@, "Dusk"@),
        Accent::Ember => ("#c05c2a"@, "#e4b49a"@, "#fdf4ee"@, "192, 92, 42"@, "Ember"@),
        Accent::Mono => ("#505050"@, "#b0b0b0"@, "#f5f5f5"@, "80, 80, 80"@, "Mono"@),
    }
}

impl Accent {
    /// The colours of this preset.
    pub fn colors(self) -> (c: AccentColors)
        ensures
            c@ == accent_palette(self),
    {
        match self {
            Accent::Cherry => AccentColors { hex: "#c55a74", light: "#e8b4be", bg: "#fef5f7", rgb: "197, 90, 116", label: "Cherry" },
            Accent::Wisteria => AccentColors { hex: "#7b5ea7", light: "#c3b0dc", bg: "#f7f3fc", rgb: "123, 94, 167", label: "Wisteria" },
            Accent::Moss => AccentColors { hex: "#4a7c59", light: "#9fc4a8", bg: "#f2f8f4", rgb: "74, 124, 89", label: "Moss" },
            Accent::Dusk => AccentColors { hex: "#4a6fa5", light: "#9eb8d9", bg: "#f2f5fb", rgb: "74, 111, 165", label: "Dusk" },
            Accent::Ember => AccentColors { hex: "#c05c2a", light: "#e4b49a", bg: "#fdf4ee", rgb: "192, 92, 42", label: "Ember" },
            Accent::Mono => AccentColors { hex: "#505050", light: "#b0b0b0", bg: "#f5f5f5", rgb: "80, 80, 80", label: "Mono" },
        }
    }

    /// Every preset, in the order they are offered.
    pub fn all() -> (v: Vec<Accent>)
        ensures
            v@ == accent_order(),
    {
        vec![Accent::Cherry, Accent::Wisteria, Accent::Moss, Accent::Dusk, Accent::Ember, Accent::Mono]
    }
}

impl Default for Accent {
    fn default() -> (a: Accent)
        ensures
            a == Accent::Cherry,
    {
        Accent::Cherry
    }
}

/// The colour tokens of the light or the dark theme.
struct ThemeTokens {
    /// Main page background.
    bg: &'static str,
    /// Sidebar, bottom bar, cards.
    surf: &'static str,
    /// Text entry / popover background.
    input: &'static str,
    /// Primary text.
    fg: &'static str,
    /// Secondary, muted text.
    fg2: &'static str,
    /// Very muted text (placeholders, empty state).
    fg3: &'static str,
    /// For rgba(BORDER_RGB, 0.xx) rules.
    border_rgb: &'static str,
}

/// (bg, surf, input, fg, fg2, fg3, border_rgb) of the dark (`true`) or the
/// light (`false`) theme.
pub open spec fn theme_palette(dark: bool) -> (Seq<char>, Seq<char>, Seq<char>, Seq<char>, Seq<char>, Seq<char>, Seq<char>) {
    if dark {
        ("#1c1814"@, "#231e19"@, "#2e2925"@, "#e8ddd5"@, "#9e9087"@, "#564e48"@, "200, 160, 130"@)
    } else {
        ("#f5efe6"@, "#ede6db"@, "#faf6f1"@, "#2c1f1a"@, "#7a6b68"@, "#b5a5a1"@, "100, 60, 40"@)
    }
}

/// The tokens of the dark (`true`) or the light (`false`) theme.
fn theme_tokens(dark: bool) -> (t: ThemeTokens)
    ensures
        (t.bg@, t.surf@, t.input@, t.fg@, t.fg2@, t.fg3@, t.border_rgb@) == theme_palette(dark),
{
    if dark {
        ThemeTokens {
            bg: "#1c1814",
            surf: "#231e19",
            input: "#2e2925",
            fg: "#e8ddd5",
            fg2: "#9e9087",
            fg3: "#564e48",
            border_rgb: "200, 160, 130",
        }
    } else {
        ThemeTokens {
            bg: "#f5efe6",
            surf: "#ede6db",
            input: "#faf6f1",
            fg: "#2c1f1a",
            fg2: "#7a6b68",
            fg3: "#b5a5a1",
            border_rgb: "100, 60, 40",
        }
    }
}

/// App-wide settings.
#[derive(Debug, Clone, Copy)]
pub struct AppSettings {
    pub accent: Accent,
    pub dark_mode: bool,
}

impl Default for AppSettings {
    fn default() -> (s: AppSettings)
        ensures
            s.accent == Accent::Cherry,
            !s.dark_mode,
    {
        AppSettings { accent: Accent::Cherry, dark_mode: false }
    }
}

/// The stylesheet for an accent and a theme: the template with its accent
/// tokens, then its theme tokens (longer tokens first), replaced by colours.
pub open spec fn css_spec(accent: Accent, dark: bool, template: Seq<char>) -> Seq<char> {
    let (hex, light, abg, rgb, _label) = accent_palette(accent);
    let (bg, surf, input, fg, fg2, fg3, border_rgb) = theme_palette(dark);
    let s = replace_spec(template, "BLOSSOM_ACCENT"@, hex);
    let s = replace_spec(s, "BLOSSOM_AL"@, light);
    let s = replace_spec(s, "BLOSSOM_AB"@, abg);
    let s = replace_spec(s, "BLOSSOM_ARGB"@, rgb);
    let s = replace_spec(s, "BLOSSOM_BORDER_RGB"@, border_rgb);
    let s = replace_spec(s, "BLOSSOM_INPUT"@, input);
    let s = replace_spec(s, "BLOSSOM_SURF"@, surf);
    let s = replace_spec(s, "BLOSSOM_FG3"@, fg3);
    let s = replace_spec(s, "BLOSSOM_FG2"@, fg2);
    let s = replace_spec(s, "BLOSSOM_FG"@, fg);
    replace_spec(s, "BLOSSOM_BG"@, bg)
}

impl AppSettings {
    /// The application stylesheet: `template` with the accent and theme
    /// tokens of these settings filled in.
    pub fn css(&self, template: &str) -> (css: String)
        ensures
            css@ == css_spec(self.accent, self.dark_mode, template@),
    {
        let a = self.accent.colors();
        let t = theme_tokens(self.dark_mode);
        proof {
            reveal_strlit("BLOSSOM_ACCENT");
            reveal_strlit("BLOSSOM_AL");
            reveal_strlit("BLOSSOM_AB");
            reveal_strlit("BLOSSOM_ARGB");
            reveal_strlit("BLOSSOM_BORDER_RGB");
            reveal_strlit("BLOSSOM_INPUT");
            reveal_strlit("BLOSSOM_SURF");
            reveal_strlit("BLOSSOM_FG3");
            reveal_strlit("BLOSSOM_FG2");
            reveal_strlit("BLOSSOM_FG");
            reveal_strlit("BLOSSOM_BG");
        }
        // accent tokens
        let s = replace_all(template, "BLOSSOM_ACCENT", a.hex);
        let s = replace_all(s.as_str(), "BLOSSOM_AL", a.light);
        let s = replace_all(s.as_str(), "BLOSSOM_AB", a.bg);
        let s = replace_all(s.as_str(), "BLOSSOM_ARGB", a.rgb);
        // theme tokens (order matters: longer tokens first)
        let s = replace_all(s.as_str(), "BLOSSOM_BORDER_RGB", t.border_rgb);
        let s = replace_all(s.as_str(), "BLOSSOM_INPUT", t.input);
        let s = replace_all(s.as_str(), "BLOSSOM_SURF", t.surf);
        let s = replace_all(s.as_str(), "BLOSSOM_FG3", t.fg3);
        let s = replace_all(s.as_str(), "BLOSSOM_FG2", t.fg2);
        let s = replace_all(s.as_str(), "BLOSSOM_FG", t.fg);
        replace_all(s.as_str(), "BLOSSOM_BG", t.bg)
    }
}

// ─── laws of the palettes ──────────────────────────────────────────────────

/// The value of a lowercase hexadecimal digit.
pub open spec fn hex_value(c: char) -> int {
    if '0' <= c <= '9' {
        c as int - 48
    } else {
        c as int - 87
    }
}

/// The byte written by the two hexadecimal digits of `s` at `i` and `i + 1`.
pub open spec fn hex_byte(s: Seq<char>, i: int) -> nat {
    (hex_value(s[i]) * 16 + hex_value(s[i + 1])) as nat
}

/// The "R, G, B" text, in decimal, of a colour written "#rrggbb".
pub open spec fn rgb_text_of(hex: Seq<char>) -> Seq<char> {
    decimal(hex_byte(hex, 1)) + ", "@ + decimal(hex_byte(hex, 3)) + ", "@ + decimal(hex_byte(hex, 5))
}

/// The name of a preset.
pub open spec fn accent_name(a: Accent) -> Seq<char> {
    match a {
        Accent::Cherry => "Cherry"@,
        Accent::Wisteria => "Wisteria"@,
        Accent::Moss => "Moss"@,
        Accent::Dusk => "Dusk"@,
        Accent::Ember => "Ember"@,
        Accent::Mono => "Mono"@,
    }
}

/// The presets are offered once each; each is labelled with its name; its
/// RGB text is the decimal form of its hex colour; and no two presets share a
/// colour or a label.
pub proof fn lemma_accent_palettes()
    ensures
        forall|a: Accent| #[trigger] accent_order().contains(a),
        accent_order().no_duplicates(),
        forall|a: Accent| #[trigger] accent_palette(a).4 == accent_name(a),
        forall|a: Accent| #[trigger] accent_palette(a).3 == rgb_text_of(accent_palette(a).0),
        forall|a: Accent, b: Accent| a != b ==> #[trigger] accent_palette(a).0 != #[trigger] accent_palette(b).0,
        forall|a: Accent, b: Accent| a != b ==> #[trigger] accent_name(a) != #[trigger] accent_name(b),
{
    reveal_with_fuel(decimal, 4);
    reveal_strlit("#c55a74");
    reveal_strlit("#7b5ea7");
    reveal_strlit("#4a7c59");
    reveal_strlit("#4a6fa5");
    reveal_strlit("#c05c2a");
    reveal_strlit("#505050");
    reveal_strlit("197, 90, 116");
    reveal_strlit("123, 94, 167");
    reveal_strlit("74, 124, 89");
    reveal_strlit("74, 111, 165");
    reveal_strlit("192, 92, 42");
    reveal_strlit("80, 80, 80");
    reveal_strlit(", ");
    reveal_strlit("Cherry");
    reveal_strlit("Wisteria");
    reveal_strlit("Moss");
    reveal_strlit("Dusk");
    reveal_strlit("Ember");
    reveal_strlit("Mono");
    let order = accent_order();
    assert forall|a: Accent| #[trigger] order.contains(a) by {
        match a {
            Accent::Cherry => assert(order[0] == a),
            Accent::Wisteria => assert(order[1] == a),
            Accent::Moss => assert(order[2] == a),
            Accent::Dusk => assert(order[3] == a),
            Accent::Ember => assert(order[4] == a),
            Accent::Mono => assert(order[5] == a),
        }
    }
    assert forall|a: Accent| #[trigger] accent_palette(a).3 == rgb_text_of(accent_palette(a).0) by {
        match a {
            Accent::Cherry => {
                assert(hex_byte("#c55a74"@, 1) == 197);
                assert(hex_byte("#c55a74"@, 3) == 90);
                assert(hex_byte("#c55a74"@, 5) == 116);
                assert(decimal(197) =~= seq!['1', '9', '7']);
                assert(decimal(90) =~= seq!['9', '0']);
                assert(decimal(116) =~= seq!['1', '1', '6']);
                assert(rgb_text_of("#c55a74"@) =~= "197, 90, 116"@);
            },
            Accent::Wisteria => {
                assert(hex_byte("#7b5ea7"@, 1) == 123);
                assert(hex_byte("#7b5ea7"@, 3) == 94);
                assert(hex_byte("#7b5ea7"@, 5) == 167);
                assert(decimal(123) =~= seq!['1', '2', '3']);
                assert(decimal(94) =~= seq!['9', '4']);
                assert(decimal(167) =~= seq!['1', '6', '7']);
                assert(rgb_text_of("#7b5ea7"@) =~= "123, 94, 167"@);
            },
            Accent::Moss => {
                assert(hex_byte("#4a7c59"@, 1) == 74);
                assert(hex_byte("#4a7c59"@, 3) == 124);
                assert(hex_byte("#4a7c59"@, 5) == 89);
                assert(decimal(74) =~= seq!['7', '4']);
                assert(decimal(124) =~= seq!['1', '2', '4']);
                assert(decimal(89) =~= seq!['8', '9']);
                assert(rgb_text_of("#4a7c59"@) =~= "74, 124, 89"@);
            },
            Accent::Dusk => {
                assert(hex_byte("#4a6fa5"@, 1) == 74);
                assert(hex_byte("#4a6fa5"@, 3) == 111);
                assert(hex_byte("#4a6fa5"@, 5) == 165);
                assert(decimal(74) =~= seq!['7', '4']);
                assert(decimal(111) =~= seq!['1', '1', '1']);
                assert(decimal(165) =~= seq!['1', '6', '5']);
                assert(rgb_text_of("#4a6fa5"@) =~= "74, 111, 165"@);
            },
            Accent::Ember => {
                assert(hex_byte("#c05c2a"@, 1) == 192);
                assert(hex_byte("#c05c2a"@, 3) == 92);
                assert(hex_byte("#c05c2a"@, 5) == 42);
                assert(decimal(192) =~= seq!['1', '9', '2']);
                assert(decimal(92) =~= seq!['9', '2']);
                assert(decimal(42) =~= seq!['4', '2']);
                assert(rgb_text_of("#c05c2a"@) =~= "192, 92, 42"@);
            },
            Accent::Mono => {
                assert(hex_byte("#505050"@, 1) == 80);
                assert(hex_byte("#505050"@, 3) == 80);
                assert(hex_byte("#505050"@, 5) == 80);
                assert(decimal(80) =~= seq!['8', '0']);
                assert(rgb_text_of("#505050"@) =~= "80, 80, 80"@);
            },
        }
    }
    assert forall|a: Accent, b: Accent| a != b implies #[trigger] accent_palette(a).0 != #[trigger] accent_palette(b).0 by {
        let x = accent_palette(a).0;
        let y = accent_palette(b).0;
        if x == y {
            assert(x[1] == y[1] && x[2] == y[2] && x[3] == y[3]);
        }
    }
    assert forall|a: Accent, b: Accent| a != b implies #[trigger] accent_name(a) != #[trigger] accent_name(b) by {
        let x = accent_name(a);
        let y = accent_name(b);
        if x == y {
            assert(x.len() == y.len() && x[0] == y[0] && x[1] == y[1] && x[2] == y[2]);
        }
    }
}

// ─── laws of the tints ─────────────────────────────────────────────────────

/// A lowercase hexadecimal digit.
pub open spec fn is_hex_digit(c: char) -> bool {
    ('0' <= c <= '9') || ('a' <= c <= 'f')
}

/// A colour written "#rrggbb" in lowercase hexadecimal.
pub open spec fn is_hex_colour(s: Seq<char>) -> bool {
    s.len() == 7 && s[0] == '#' && forall|i: int| 1 <= i < 7 ==> is_hex_digit(#[trigger] s[i])
}

/// The sign of a number: 1, 0 or -1.
pub open spec fn sign(d: int) -> int {
    if d > 0 {
        1
    } else if d < 0 {
        -1
    } else {
        0
    }
}

/// Two "#rrggbb" colours whose red, green and blue channels stand in the
/// same order: the same hue family.
pub open spec fn same_channel_order(x: Seq<char>, y: Seq<char>) -> bool {
    &&& sign(hex_byte(x, 1) - hex_byte(x, 3)) == sign(hex_byte(y, 1) - hex_byte(y, 3))
    &&& sign(hex_byte(x, 3) - hex_byte(x, 5)) == sign(hex_byte(y, 3) - hex_byte(y, 5))
    &&& sign(hex_byte(x, 1) - hex_byte(x, 5)) == sign(hex_byte(y, 1) - hex_byte(y, 5))
}

/// Every channel of the "#rrggbb" colour `y` is above that of `x`.
pub open spec fn lighter_in_every_channel(x: Seq<char>, y: Seq<char>) -> bool {
    &&& hex_byte(x, 1) < hex_byte(y, 1)
    &&& hex_byte(x, 3) < hex_byte(y, 3)
    &&& hex_byte(x, 5) < hex_byte(y, 5)
}

/// The tints of one preset, as `lemma_accent_tints` states them.
proof fn lemma_tints_of(a: Accent)
    ensures
        is_hex_colour(accent_palette(a).0),
        is_hex_colour(accent_palette(a).1),
        is_hex_colour(accent_palette(a).2),
        lighter_in_every_channel(accent_palette(a).0, accent_palette(a).1),
        lighter_in_every_channel(accent_palette(a).1, accent_palette(a).2),
        same_channel_order(accent_palette(a).0, accent_palette(a).1),
        same_channel_order(accent_palette(a).0, accent_palette(a).2),
{
    match a {
        Accent::Cherry => {
            reveal_strlit("#c55a74");
            reveal_strlit("#e8b4be");
            reveal_strlit("#fef5f7");
            assert(hex_byte("#c55a74"@, 1) == 197);
            assert(hex_byte("#c55a74"@, 3) == 90);
            assert(hex_byte("#c55a74"@, 5) == 116);
            assert(hex_byte("#e8b4be"@, 1) == 232);
            assert(hex_byte("#e8b4be"@, 3) == 180);
            assert(hex_byte("#e8b4be"@, 5) == 190);
            assert(hex_byte("#fef5f7"@, 1) == 254);
            assert(hex_byte("#fef5f7"@, 3) == 245);
            assert(hex_byte("#fef5f7"@, 5) == 247);
        },
        Accent::Wisteria => {
            reveal_strlit("#7b5ea7");
            reveal_strlit("#c3b0dc");
            reveal_strlit("#f7f3fc");
            assert(hex_byte("#7b5ea7"@, 1) == 123);
            assert(hex_byte("#7b5ea7"@, 3) == 94);
            assert(hex_byte("#7b5ea7"@, 5) == 167);
            assert(hex_byte("#c3b0dc"@, 1) == 195);
            assert(hex_byte("#c3b0dc"@, 3) == 176);
            assert(hex_byte("#c3b0dc"@, 5) == 220);
            assert(hex_byte("#f7f3fc"@, 1) == 247);
            assert(hex_byte("#f7f3fc"@, 3) == 243);
            assert(hex_byte("#f7f3fc"@, 5) == 252);
        },
        Accent::Moss => {
            reveal_strlit("#4a7c59");
            reveal_strlit("#9fc4a8");
            reveal_strlit("#f2f8f4");
            assert(hex_byte("#4a7c59"@, 1) == 74);
            assert(hex_byte("#4a7c59"@, 3) == 124);
            assert(hex_byte("#4a7c59"@, 5) == 89);
            assert(hex_byte("#9fc4a8"@, 1) == 159);
            assert(hex_byte("#9fc4a8"@, 3) == 196);
            assert(hex_byte("#9fc4a8"@, 5) == 168);
            assert(hex_byte("#f2f8f4"@, 1) == 242);
            assert(hex_byte("#f2f8f4"@, 3) == 248);
            assert(hex_byte("#f2f8f4"@, 5) == 244);
        },
        Accent::Dusk => {
            reveal_strlit("#4a6fa5");
            reveal_strlit("#9eb8d9");
            reveal_strlit("#f2f5fb");
            assert(hex_byte("#4a6fa5"@, 1) == 74);
            assert(hex_byte("#4a6fa5"@, 3) == 111);
            assert(hex_byte("#4a6fa5"@, 5) == 165);
            assert(hex_byte("#9eb8d9"@, 1) == 158);
            assert(hex_byte("#9eb8d9"@, 3) == 184);
            assert(hex_byte("#9eb8d9"@, 5) == 217);
            assert(hex_byte("#f2f5fb"@, 1) == 242);
            assert(hex_byte("#f2f5fb"@, 3) == 245);
            assert(hex_byte("#f2f5fb"@, 5) == 251);
        },
        Accent::Ember => {
            reveal_strlit("#c05c2a");
            reveal_strlit("#e4b49a");
            reveal_strlit("#fdf4ee");
            assert(hex_byte("#c05c2a"@, 1) == 192);
            assert(hex_byte("#c05c2a"@, 3) == 92);
            assert(hex_byte("#c05c2a"@, 5) == 42);
            assert(hex_byte("#e4b49a"@, 1) == 228);
            assert(hex_byte("#e4b49a"@, 3) == 180);
            assert(hex_byte("#e4b49a"@, 5) == 154);
            assert(hex_byte("#fdf4ee"@, 1) == 253);
            assert(hex_byte("#fdf4ee"@, 3) == 244);
            assert(hex_byte("#fdf4ee"@, 5) == 238);
        },
        Accent::Mono => {
            reveal_strlit("#505050");
            reveal_strlit("#b0b0b0");
            reveal_strlit("#f5f5f5");
            assert(hex_byte("#505050"@, 1) == 80);
            assert(hex_byte("#505050"@, 3) == 80);
            assert(hex_byte("#505050"@, 5) == 80);
            assert(hex_byte("#b0b0b0"@, 1) == 176);
            assert(hex_byte("#b0b0b0"@, 3) == 176);
            assert(hex_byte("#b0b0b0"@, 5) == 176);
            assert(hex_byte("#f5f5f5"@, 1) == 245);
            assert(hex_byte("#f5f5f5"@, 3) == 245);
            assert(hex_byte("#f5f5f5"@, 5) == 245);
        },
    }
}

/// Each preset's light tint and background tint are "#rrggbb" colours of
/// the accent's own hue (their channels stand in the order of the accent
/// colour's), the light tint lighter than the accent colour in every channel
/// and the background lighter still; and no two presets share a tint.
pub proof fn lemma_accent_tints()
    ensures
        forall|a: Accent| #![trigger accent_palette(a)]
            is_hex_colour(accent_palette(a).0) && is_hex_colour(accent_palette(a).1)
                && is_hex_colour(accent_palette(a).2),
        forall|a: Accent| #![trigger accent_palette(a)]
            lighter_in_every_channel(accent_palette(a).0, accent_palette(a).1)
                && lighter_in_every_channel(accent_palette(a).1, accent_palette(a).2),
        forall|a: Accent| #![trigger accent_palette(a)]
            same_channel_order(accent_palette(a).0, accent_palette(a).1)
                && same_channel_order(accent_palette(a).0, accent_palette(a).2),
        forall|a: Accent, b: Accent| a != b ==> #[trigger] accent_palette(a).1 != #[trigger] accent_palette(b).1,
        forall|a: Accent, b: Accent| a != b ==> #[trigger] accent_palette(a).2 != #[trigger] accent_palette(b).2,
{
    reveal_strlit("#e8b4be");
    reveal_strlit("#c3b0dc");
    reveal_strlit("#9fc4a8");
    reveal_strlit("#9eb8d9");
    reveal_strlit("#e4b49a");
    reveal_strlit("#b0b0b0");
    reveal_strlit("#fef5f7");
    reveal_strlit("#f7f3fc");
    reveal_strlit("#f2f8f4");
    reveal_strlit("#f2f5fb");
    reveal_strlit("#fdf4ee");
    reveal_strlit("#f5f5f5");
    assert forall|a: Accent| #![trigger accent_palette(a)]
        is_hex_colour(accent_palette(a).0) && is_hex_colour(accent_palette(a).1)
            && is_hex_colour(accent_palette(a).2)
            && lighter_in_every_channel(accent_palette(a).0, accent_palette(a).1)
            && lighter_in_every_channel(accent_palette(a).1, accent_palette(a).2)
            && same_channel_order(accent_palette(a).0, accent_palette(a).1)
            && same_channel_order(accent_palette(a).0, accent_palette(a).2) by {
        lemma_tints_of(a);
    }
    assert forall|a: Accent, b: Accent| a != b implies #[trigger] accent_palette(a).1 != #[trigger] accent_palette(b).1 by {
        let x = accent_palette(a).1;
        let y = accent_palette(b).1;
        if x == y {
            assert(x[1] == y[1] && x[2] == y[2] && x[3] == y[3] && x[4] == y[4]);
        }
    }
    assert forall|a: Accent, b: Accent| a != b implies #[trigger] accent_palette(a).2 != #[trigger] accent_palette(b).2 by {
        let x = accent_palette(a).2;
        let y = accent_palette(b).2;
        if x == y {
            assert(x[1] == y[1] && x[2] == y[2] && x[3] == y[3] && x[4] == y[4]);
        }
    }
}

/// The themes read as their names say: in the light theme the text
/// colours darken from the muted one to the main one against a lighter
/// background, in the dark theme they lighten against a darker one, and the
/// light background is lighter than the dark one in every channel.
pub proof fn lemma_theme_contrast()
    ensures
        lighter_in_every_channel(theme_palette(false).3, theme_palette(false).4),
        lighter_in_every_channel(theme_palette(false).4, theme_palette(false).5),
        lighter_in_every_channel(theme_palette(false).5, theme_palette(false).0),
        lighter_in_every_channel(theme_palette(true).4, theme_palette(true).3),
        lighter_in_every_channel(theme_palette(true).5, theme_palette(true).4),
        lighter_in_every_channel(theme_palette(true).0, theme_palette(true).5),
        lighter_in_every_channel(theme_palette(true).0, theme_palette(false).0),
{
    reveal_strlit("#1c1814");
    reveal_strlit("#231e19");
    reveal_strlit("#2e2925");
    reveal_strlit("#e8ddd5");
    reveal_strlit("#9e9087");
    reveal_strlit("#564e48");
    reveal_strlit("#f5efe6");
    reveal_strlit("#ede6db");
    reveal_strlit("#faf6f1");
    reveal_strlit("#2c1f1a");
    reveal_strlit("#7a6b68");
    reveal_strlit("#b5a5a1");
    assert(hex_byte("#1c1814"@, 1) == 28);
    assert(hex_byte("#1c1814"@, 3) == 24);
    assert(hex_byte("#1c1814"@, 5) == 20);
    assert(hex_byte("#231e19"@, 1) == 35);
    assert(hex_byte("#231e19"@, 3) == 30);
    assert(hex_byte("#231e19"@, 5) == 25);
    assert(hex_byte("#2e2925"@, 1) == 46);
    assert(hex_byte("#2e2925"@, 3) == 41);
    assert(hex_byte("#2e2925"@, 5) == 37);
    assert(hex_byte("#e8ddd5"@, 1) == 232);
    assert(hex_byte("#e8ddd5"@, 3) == 221);
    assert(hex_byte("#e8ddd5"@, 5) == 213);
    assert(hex_byte("#9e9087"@, 1) == 158);
    assert(hex_byte("#9e9087"@, 3) == 144);
    assert(hex_byte("#9e9087"@, 5) == 135);
    assert(hex_byte("#564e48"@, 1) == 86);
    assert(hex_byte("#564e48"@, 3) == 78);
    assert(hex_byte("#564e48"@, 5) == 72);
    assert(hex_byte("#f5efe6"@, 1) == 245);
    assert(hex_byte("#f5efe6"@, 3) == 239);
    assert(hex_byte("#f5efe6"@, 5) == 230);
    assert(hex_byte("#ede6db"@, 1) == 237);
    assert(hex_byte("#ede6db"@, 3) == 230);
    assert(hex_byte("#ede6db"@, 5) == 219);
    assert(hex_byte("#faf6f1"@, 1) == 250);
    assert(hex_byte("#faf6f1"@, 3) == 246);
    assert(hex_byte("#faf6f1"@, 5) == 241);
    assert(hex_byte("#2c1f1a"@, 1) == 44);
    assert(hex_byte("#2c1f1a"@, 3) == 31);
    assert(hex_byte("#2c1f1a"@, 5) == 26);
    assert(hex_byte("#7a6b68"@, 1) == 122);
    assert(hex_byte("#7a6b68"@, 3) == 107);
    assert(hex_byte("#7a6b68"@, 5) == 104);
    assert(hex_byte("#b5a5a1"@, 1) == 181);
    assert(hex_byte("#b5a5a1"@, 3) == 165);
    assert(hex_byte("#b5a5a1"@, 5) == 161);
}

// ─── laws of the stylesheet ────────────────────────────────────────────────

/// The placeholders of the stylesheet template, in the order `css` fills
/// them.
pub open spec fn placeholder(j: int) -> Seq<char> {
    if j == 0 {
        "BLOSSOM_ACCENT"@
    } else if j == 1 {
        "BLOSSOM_AL"@
    } else if j == 2 {
        "BLOSSOM_AB"@
    } else if j == 3 {
        "BLOSSOM_ARGB"@
    } else if j == 4 {
        "BLOSSOM_BORDER_RGB"@
    } else if j == 5 {
        "BLOSSOM_INPUT"@
    } else if j == 6 {
        "BLOSSOM_SURF"@
    } else if j == 7 {
        "BLOSSOM_FG3"@
    } else if j == 8 {
        "BLOSSOM_FG2"@
    } else if j == 9 {
        "BLOSSOM_FG"@
    } else {
        "BLOSSOM_BG"@
    }
}

/// A character that cannot continue a placeholder: not an uppercase ASCII
/// letter, a digit or '_'.
pub open spec fn is_boundary(c: char) -> bool {
    !('A' <= c <= 'Z') && !('0' <= c <= '9') && c != '_'
}

/// Placeholders start "BLOSSOM_", hold no boundary character, and hold no
/// 'B' followed by 'L' after their start.
pub proof fn lemma_placeholder_chars(j: int)
    requires
        0 <= j < 11,
    ensures
        placeholder(j).len() >= 10,
        placeholder(j)[0] == 'B',
        placeholder(j)[1] == 'L',
        placeholder(j).subrange(0, 8) == "BLOSSOM_"@,
        forall|t: int| 0 <= t < placeholder(j).len() ==> !is_boundary(#[trigger] placeholder(j)[t]),
        forall|t: int| 1 <= t < placeholder(j).len() - 1 ==> !(#[trigger] placeholder(j)[t] == 'B' && placeholder(j)[t + 1] == 'L'),
{
    reveal_strlit("BLOSSOM_");
    reveal_strlit("BLOSSOM_ACCENT");
    reveal_strlit("BLOSSOM_AL");
    reveal_strlit("BLOSSOM_AB");
    reveal_strlit("BLOSSOM_ARGB");
    reveal_strlit("BLOSSOM_BORDER_RGB");
    reveal_strlit("BLOSSOM_INPUT");
    reveal_strlit("BLOSSOM_SURF");
    reveal_strlit("BLOSSOM_FG3");
    reveal_strlit("BLOSSOM_FG2");
    reveal_strlit("BLOSSOM_FG");
    reveal_strlit("BLOSSOM_BG");
}

/// A placeholder filled earlier is never the start of one filled later.
pub proof fn lemma_placeholder_order(k: int, j: int)
    requires
        0 <= k < j < 11,
        placeholder(k).len() <= placeholder(j).len(),
    ensures
        placeholder(j).subrange(0, placeholder(k).len() as int) != placeholder(k),
{
    reveal_strlit("BLOSSOM_ACCENT");
    reveal_strlit("BLOSSOM_AL");
    reveal_strlit("BLOSSOM_AB");
    reveal_strlit("BLOSSOM_ARGB");
    reveal_strlit("BLOSSOM_BORDER_RGB");
    reveal_strlit("BLOSSOM_INPUT");
    reveal_strlit("BLOSSOM_SURF");
    reveal_strlit("BLOSSOM_FG3");
    reveal_strlit("BLOSSOM_FG2");
    reveal_strlit("BLOSSOM_FG");
    reveal_strlit("BLOSSOM_BG");
    let pk = placeholder(k);
    let pj = placeholder(j);
    if pj.subrange(0, pk.len() as int) == pk {
        assert(pj.subrange(0, pk.len() as int)[8] == pk[8]);
        assert(pj.subrange(0, pk.len() as int)[9] == pk[9]);
        if pk.len() > 10 {
            assert(pj.subrange(0, pk.len() as int)[10] == pk[10]);
        }
    }
}

/// The colour that fills placeholder `j` for an accent and a theme.
pub open spec fn token_value(accent: Accent, dark: bool, j: int) -> Seq<char> {
    let (hex, light, abg, rgb, _label) = accent_palette(accent);
    let (bg, surf, input, fg, fg2, fg3, border_rgb) = theme_palette(dark);
    if j == 0 {
        hex
    } else if j == 1 {
        light
    } else if j == 2 {
        abg
    } else if j == 3 {
        rgb
    } else if j == 4 {
        border_rgb
    } else if j == 5 {
        input
    } else if j == 6 {
        surf
    } else if j == 7 {
        fg3
    } else if j == 8 {
        fg2
    } else if j == 9 {
        fg
    } else {
        bg
    }
}

/// No colour is empty or holds an uppercase ASCII letter or '_'.
pub proof fn lemma_token_value_chars(accent: Accent, dark: bool, j: int)
    ensures
        token_value(accent, dark, j).len() > 0,
        forall|t: int| 0 <= t < token_value(accent, dark, j).len() ==> {
            let c = #[trigger] token_value(accent, dark, j)[t];
            !('A' <= c <= 'Z') && c != '_'
        },
{
    reveal_strlit("#c55a74");
    reveal_strlit("#e8b4be");
    reveal_strlit("#fef5f7");
    reveal_strlit("197, 90, 116");
    reveal_strlit("#7b5ea7");
    reveal_strlit("#c3b0dc");
    reveal_strlit("#f7f3fc");
    reveal_strlit("123, 94, 167");
    reveal_strlit("#4a7c59");
    reveal_strlit("#9fc4a8");
    reveal_strlit("#f2f8f4");
    reveal_strlit("74, 124, 89");
    reveal_strlit("#4a6fa5");
    reveal_strlit("#9eb8d9");
    reveal_strlit("#f2f5fb");
    reveal_strlit("74, 111, 165");
    reveal_strlit("#c05c2a");
    reveal_strlit("#e4b49a");
    reveal_strlit("#fdf4ee");
    reveal_strlit("192, 92, 42");
    reveal_strlit("#505050");
    reveal_strlit("#b0b0b0");
    reveal_strlit("#f5f5f5");
    reveal_strlit("80, 80, 80");
    reveal_strlit("#1c1814");
    reveal_strlit("#231e19");
    reveal_strlit("#2e2925");
    reveal_strlit("#e8ddd5");
    reveal_strlit("#9e9087");
    reveal_strlit("#564e48");
    reveal_strlit("200, 160, 130");
    reveal_strlit("#f5efe6");
    reveal_strlit("#ede6db");
    reveal_strlit("#faf6f1");
    reveal_strlit("#2c1f1a");
    reveal_strlit("#7a6b68");
    reveal_strlit("#b5a5a1");
    reveal_strlit("100, 60, 40");
}


/// A piece of a stylesheet template: one character of its text, or one of
/// the placeholders (by its index in [`placeholder`]).
#[derive(Debug, Clone, Copy, PartialEq, Eq, Structural)]
pub enum TemplatePiece {
    Plain(char),
    Token(u8),
}

/// The template that a list of pieces spells.
pub open spec fn template_text(ps: Seq<TemplatePiece>) -> Seq<char>
    decreases ps.len(),
{
    if ps.len() == 0 {
        Seq::empty()
    } else {
        let first = match ps[0] {
            TemplatePiece::Plain(c) => seq![c],
            TemplatePiece::Token(j) => placeholder(j as int),
        };
        first + template_text(ps.skip(1))
    }
}

/// What a piece reads as once the placeholders with an index below `filled`
/// hold their colours.
pub open spec fn piece_text(p: TemplatePiece, filled: int, accent: Accent, dark: bool) -> Seq<char> {
    match p {
        TemplatePiece::Plain(c) => seq![c],
        TemplatePiece::Token(j) => if (j as int) < filled {
            token_value(accent, dark, j as int)
        } else {
            placeholder(j as int)
        },
    }
}

/// The text of a template once the placeholders with an index below
/// `filled` hold their colours.
pub open spec fn render(ps: Seq<TemplatePiece>, filled: int, accent: Accent, dark: bool) -> Seq<char>
    decreases ps.len(),
{
    if ps.len() == 0 {
        Seq::empty()
    } else {
        piece_text(ps[0], filled, accent, dark) + render(ps.skip(1), filled, accent, dark)
    }
}

/// A template in which every "BLOSSOM_" starts one of the placeholders, and
/// each placeholder ends the template or is followed by a boundary character.
pub open spec fn well_formed_template(ps: Seq<TemplatePiece>) -> bool {
    forall|i: int|
        0 <= i < ps.len() ==> match #[trigger] ps[i] {
            TemplatePiece::Plain(_) => !is_prefix("BLOSSOM_"@, template_text(ps.skip(i))),
            TemplatePiece::Token(j) => j < 11 && (i + 1 == ps.len()
                || (ps[i + 1] matches TemplatePiece::Plain(c) && is_boundary(c))),
        }
}

/// Before any placeholder is filled, the text is the template.
proof fn lemma_render_unfilled(ps: Seq<TemplatePiece>, accent: Accent, dark: bool)
    ensures
        render(ps, 0, accent, dark) == template_text(ps),
    decreases ps.len(),
{
    if ps.len() > 0 {
        lemma_render_unfilled(ps.skip(1), accent, dark);
    }
}

/// A template without its first piece is still well formed, and it starts
/// with a boundary character when the first piece was a placeholder.
proof fn lemma_template_tail(ps: Seq<TemplatePiece>, filled: int, accent: Accent, dark: bool)
    requires
        well_formed_template(ps),
        ps.len() > 0,
    ensures
        well_formed_template(ps.skip(1)),
        render(ps, filled, accent, dark) == piece_text(ps[0], filled, accent, dark) + render(ps.skip(1), filled, accent, dark),
        render(ps.skip(1), filled, accent, dark).len() > 0 ==> is_boundary(render(ps.skip(1), filled, accent, dark)[0])
            || !(ps[0] is Token),
{
    let tail = ps.skip(1);
    assert forall|i: int| 0 <= i < tail.len() implies match #[trigger] tail[i] {
        TemplatePiece::Plain(_) => !is_prefix("BLOSSOM_"@, template_text(tail.skip(i))),
        TemplatePiece::Token(j) => j < 11 && (i + 1 == tail.len()
            || (tail[i + 1] matches TemplatePiece::Plain(c) && is_boundary(c))),
    } by {
        assert(tail[i] == ps[i + 1]);
        assert(tail.skip(i) =~= ps.skip(i + 1));
        if i + 1 < tail.len() {
            assert(tail[i + 1] == ps[i + 2]);
        }
    }
    if tail.len() > 0 && ps[0] is Token {
        assert(ps[1] == tail[0]);
        let c = ps[1]->Plain_0;
        assert(is_boundary(c));
        assert(render(tail, filled, accent, dark) == seq![c] + render(tail.skip(1), filled, accent, dark));
    }
}

/// Where the partly filled template starts with "BLOSSOM_" from position `p`
/// on, and it does so at a character of the text or inside the word, the
/// template itself starts with it: no colour and no placeholder can supply
/// any of those characters.
proof fn lemma_word_from_text(ps: Seq<TemplatePiece>, k: int, accent: Accent, dark: bool, p: int)
    requires
        0 <= p < 8,
        is_prefix("BLOSSOM_"@.skip(p), render(ps, k, accent, dark)),
        p > 0 || (ps.len() > 0 && ps[0] is Plain),
    ensures
        is_prefix("BLOSSOM_"@.skip(p), template_text(ps)),
    decreases ps.len(),
{
    reveal_strlit("BLOSSOM_");
    let w = "BLOSSOM_"@.skip(p);
    let r = render(ps, k, accent, dark);
    assert(w.len() == 8 - p);
    if ps.len() > 0 {
        let x = piece_text(ps[0], k, accent, dark);
        let r2 = render(ps.skip(1), k, accent, dark);
        assert(r == x + r2);
        assert(r.subrange(0, w.len() as int)[0] == w[0]);
        assert(w[0] == "BLOSSOM_"@[p]);
        match ps[0] {
            TemplatePiece::Plain(c) => {
                assert(r[0] == c);
                let t2 = template_text(ps.skip(1));
                assert(template_text(ps) == seq![c] + t2);
                if p < 7 {
                    assert("BLOSSOM_"@.skip(p + 1) =~= w.skip(1));
                    assert(r2.subrange(0, w.len() - 1) =~= r.subrange(0, w.len() as int).skip(1));
                    lemma_word_from_text(ps.skip(1), k, accent, dark, p + 1);
                    assert(template_text(ps).subrange(0, w.len() as int) =~= seq![c] + t2.subrange(0, w.len() - 1));
                    assert(template_text(ps).subrange(0, w.len() as int) =~= w);
                } else {
                    assert(template_text(ps).subrange(0, 1) =~= w);
                }
            },
            TemplatePiece::Token(j) => {
                if (j as int) < k {
                    lemma_token_value_chars(accent, dark, j as int);
                    assert(r[0] == x[0]);
                } else {
                    if j < 11 {
                        lemma_placeholder_chars(j as int);
                    } else {
                        lemma_placeholder_chars(10);
                        assert(placeholder(j as int) == placeholder(10));
                    }
                    assert(r[0] == x[0]);
                }
            },
        }
    }
}

/// Filling placeholder `k` of a template in which the placeholders before
/// it already hold their colours fills exactly that placeholder.
proof fn lemma_fill_step(ps: Seq<TemplatePiece>, k: int, accent: Accent, dark: bool)
    requires
        well_formed_template(ps),
        0 <= k < 11,
    ensures
        replace_spec(render(ps, k, accent, dark), placeholder(k), token_value(accent, dark, k))
            == render(ps, k + 1, accent, dark),
    decreases ps.len(),
{
    let pat = placeholder(k);
    let rep = token_value(accent, dark, k);
    lemma_placeholder_chars(k);
    if ps.len() == 0 {
        assert(replace_spec(render(ps, k, accent, dark), pat, rep) =~= Seq::<char>::empty());
    } else {
        lemma_template_tail(ps, k, accent, dark);
        lemma_template_tail(ps, k + 1, accent, dark);
        lemma_fill_step(ps.skip(1), k, accent, dark);
        let x = piece_text(ps[0], k, accent, dark);
        let y = render(ps.skip(1), k, accent, dark);
        let first_ok = match ps[0] {
            TemplatePiece::Plain(_) => !is_prefix("BLOSSOM_"@, template_text(ps.skip(0))),
            TemplatePiece::Token(j) => j < 11,
        };
        assert(first_ok);
        // No occurrence of the pattern that starts inside the first piece
        // runs into the rest.
        assert forall|i: int| 0 <= i < x.len() && #[trigger] is_prefix(pat, (x + y).skip(i))
            implies i + pat.len() <= x.len() by {
            let s = (x + y).skip(i);
            assert(s.subrange(0, pat.len() as int)[0] == pat[0]);
            assert(s.subrange(0, pat.len() as int)[1] == pat[1]);
            assert((x + y)[i] == 'B');
            assert((x + y)[i + 1] == 'L');
            assert((x + y)[i] == x[i]);
            match ps[0] {
                TemplatePiece::Plain(_) => {
                    assert(i == 0);
                    assert(s =~= render(ps, k, accent, dark));
                    assert(s.subrange(0, 8) =~= s.subrange(0, pat.len() as int).subrange(0, 8));
                    assert("BLOSSOM_"@.skip(0) =~= "BLOSSOM_"@);
                    lemma_word_from_text(ps, k, accent, dark, 0);
                    assert(ps.skip(0) =~= ps);
                },
                TemplatePiece::Token(j) => {
                    if (j as int) < k {
                        lemma_token_value_chars(accent, dark, j as int);
                    } else {
                        lemma_placeholder_chars(j as int);
                        if i >= 1 {
                            if i + 1 < x.len() {
                                assert((x + y)[i + 1] == x[i + 1]);
                            } else {
                                assert((x + y)[i + 1] == y[0]);
                            }
                        } else if j as int == k {
                        } else if pat.len() <= x.len() {
                            lemma_placeholder_order(k, j as int);
                            assert(x.subrange(0, pat.len() as int) =~= s.subrange(0, pat.len() as int));
                        } else {
                            let n = x.len() as int;
                            assert(s.subrange(0, pat.len() as int)[n] == pat[n]);
                            assert((x + y)[n] == y[0]);
                        }
                    }
                },
            }
        }
        lemma_replace_concat(x, y, pat, rep);
        // The first piece on its own.
        match ps[0] {
            TemplatePiece::Plain(_) => {
                assert forall|i: int| 0 <= i < x.len() implies !is_prefix(pat, #[trigger] x.skip(i)) by {
                    if is_prefix(pat, x.skip(i)) {
                        assert(x.skip(i).len() < pat.len());
                    }
                }
                lemma_replace_absent(x, pat, rep);
            },
            TemplatePiece::Token(j) => {
                if (j as int) == k {
                    lemma_replace_whole(pat, rep);
                } else {
                    assert forall|i: int| 0 <= i < x.len() implies !is_prefix(pat, #[trigger] x.skip(i)) by {
                        if is_prefix(pat, x.skip(i)) {
                            if (j as int) < k {
                                lemma_token_value_chars(accent, dark, j as int);
                                assert(x.skip(i).subrange(0, pat.len() as int)[0] == pat[0]);
                                assert(x[i] == 'B');
                            } else {
                                lemma_placeholder_chars(j as int);
                                assert(x.skip(i).subrange(0, pat.len() as int)[0] == pat[0]);
                                assert(x.skip(i).subrange(0, pat.len() as int)[1] == pat[1]);
                                if i >= 1 {
                                    assert(x[i] == 'B' && x[i + 1] == 'L');
                                } else {
                                    lemma_placeholder_order(k, j as int);
                                    assert(x.skip(0) =~= x);
                                }
                            }
                        }
                    }
                    lemma_replace_absent(x, pat, rep);
                }
            },
        }
    }
}

/// No "BLOSSOM_" starts anywhere in a template with every placeholder filled.
proof fn lemma_filled_has_no_word(ps: Seq<TemplatePiece>, accent: Accent, dark: bool)
    requires
        well_formed_template(ps),
    ensures
        forall|t: int| 0 <= t < render(ps, 11, accent, dark).len()
            ==> !is_prefix("BLOSSOM_"@, #[trigger] render(ps, 11, accent, dark).skip(t)),
    decreases ps.len(),
{
    reveal_strlit("BLOSSOM_");
    if ps.len() > 0 {
        lemma_template_tail(ps, 11, accent, dark);
        lemma_filled_has_no_word(ps.skip(1), accent, dark);
        let x = piece_text(ps[0], 11, accent, dark);
        let y = render(ps.skip(1), 11, accent, dark);
        let r = render(ps, 11, accent, dark);
        let first_ok = match ps[0] {
            TemplatePiece::Plain(_) => !is_prefix("BLOSSOM_"@, template_text(ps.skip(0))),
            TemplatePiece::Token(j) => j < 11,
        };
        assert(first_ok);
        assert forall|t: int| 0 <= t < r.len() implies !is_prefix("BLOSSOM_"@, #[trigger] r.skip(t)) by {
            if t >= x.len() {
                assert(r.skip(t) =~= y.skip(t - x.len()));
            } else if is_prefix("BLOSSOM_"@, r.skip(t)) {
                assert(r.skip(t).subrange(0, 8)[0] == 'B');
                assert(r[t] == x[t]);
                match ps[0] {
                    TemplatePiece::Plain(_) => {
                        assert(r.skip(0) =~= r);
                        assert("BLOSSOM_"@.skip(0) =~= "BLOSSOM_"@);
                        lemma_word_from_text(ps, 11, accent, dark, 0);
                        assert(ps.skip(0) =~= ps);
                    },
                    TemplatePiece::Token(j) => {
                        lemma_token_value_chars(accent, dark, j as int);
                    },
                }
            }
        }
    }
}

/// For a template in which every "BLOSSOM_" starts one of the placeholders,
/// each placeholder ending the template or followed by a boundary character,
/// the stylesheet reads as the template with every placeholder replaced by
/// its colour for the accent and the theme, and no "BLOSSOM_" is left in it.
pub proof fn lemma_css_fills_every_placeholder(ps: Seq<TemplatePiece>, accent: Accent, dark: bool)
    requires
        well_formed_template(ps),
    ensures
        css_spec(accent, dark, template_text(ps)) == render(ps, 11, accent, dark),
        !is_substring("BLOSSOM_"@, css_spec(accent, dark, template_text(ps))),
{
    lemma_render_unfilled(ps, accent, dark);
    lemma_fill_step(ps, 0, accent, dark);
    lemma_fill_step(ps, 1, accent, dark);
    lemma_fill_step(ps, 2, accent, dark);
    lemma_fill_step(ps, 3, accent, dark);
    lemma_fill_step(ps, 4, accent, dark);
    lemma_fill_step(ps, 5, accent, dark);
    lemma_fill_step(ps, 6, accent, dark);
    lemma_fill_step(ps, 7, accent, dark);
    lemma_fill_step(ps, 8, accent, dark);
    lemma_fill_step(ps, 9, accent, dark);
    lemma_fill_step(ps, 10, accent, dark);
    lemma_filled_has_no_word(ps, accent, dark);
    let out = render(ps, 11, accent, dark);
    reveal_strlit("BLOSSOM_");
    if is_substring("BLOSSOM_"@, out) {
        let i = choose|i: int| 0 <= i <= out.len() - "BLOSSOM_"@.len() && #[trigger] out.subrange(i, i + "BLOSSOM_"@.len()) == "BLOSSOM_"@;
        assert(out.skip(i).subrange(0, 8) =~= out.subrange(i, i + 8));
    }
}

} // verus!
