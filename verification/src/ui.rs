//! Decisions of the journal window that do not depend on the toolkit: media
//! types, font weights, passphrase rules and display texts.

use chrono::Datelike;
use vstd::prelude::*;
use vstd::string::*;
use crate::text::{decimal, str_eq};
use crate::types::{Entry, MediaKind};
use crate::vault::entries_of;

verus! {

/// The MIME type of an attachment with file extension `ext`.
pub open spec fn mime_for(ext: Option<Seq<char>>) -> Seq<char> {
    match ext {
        Some(e) => if e == "jpg"@ || e == "jpeg"@ {
            "image/jpeg"@
        } else if e == "png"@ {
            "image/png"@
        } else if e == "gif"@ {
            "image/gif"@
        } else if e == "webp"@ {
            "image/webp"@
        } else if e == "mp4"@ {
            "video/mp4"@
        } else if e == "webm"@ {
            "video/webm"@
        } else if e == "mkv"@ {
            "video/x-matroska"@
        } else if e == "mov"@ {
            "video/quicktime"@
        } else {
            "application/octet-stream"@
        },
        None => "application/octet-stream"@,
    }
}

/// Guesses the MIME type of an attachment from its file extension.
pub fn guess_mime(ext: Option<&str>) -> (m: String)
    ensures
        m@ == mime_for(match ext { Some(e) => Some(e@), None => None }),
{
    match ext {
        Some(e) => {
            if str_eq(e, "jpg") || str_eq(e, "jpeg") {
                "image/jpeg".to_owned()
            } else if str_eq(e, "png") {
                "image/png".to_owned()
            } else if str_eq(e, "gif") {
                "image/gif".to_owned()
            } else if str_eq(e, "webp") {
                "image/webp".to_owned()
            } else if str_eq(e, "mp4") {
                "video/mp4".to_owned()
            } else if str_eq(e, "webm") {
                "video/webm".to_owned()
            } else if str_eq(e, "mkv") {
                "video/x-matroska".to_owned()
            } else if str_eq(e, "mov") {
                "video/quicktime".to_owned()
            } else {
                "application/octet-stream".to_owned()
            }
        },
        None => "application/octet-stream".to_owned(),
    }
}

/// The font weights of the text toolkit.
#[derive(Debug, Clone, Copy, PartialEq, Eq, Structural)]
pub enum FontWeight {
    Thin,
    Ultralight,
    Light,
    Semilight,
    Book,
    Normal,
    Medium,
    Semibold,
    Bold,
    Ultrabold,
    Heavy,
    Ultraheavy,
}

/// The numeric weight of each font weight, on the CSS scale of 100 (thin)
/// to 1000 (ultraheavy).
pub open spec fn weight_number(w: FontWeight) -> nat {
    match w {
        FontWeight::Thin => 100,
        FontWeight::Ultralight => 200,
        FontWeight::Light => 300,
        FontWeight::Semilight => 350,
        FontWeight::Book => 380,
        FontWeight::Normal => 400,
        FontWeight::Medium => 500,
        FontWeight::Semibold => 600,
        FontWeight::Bold => 700,
        FontWeight::Ultrabold => 800,
        FontWeight::Heavy => 900,
        FontWeight::Ultraheavy => 1000,
    }
}

/// The weight named by a CSS weight string; anything unknown is `Normal`.
pub open spec fn weight_of_css(w: Seq<char>) -> FontWeight {
    if w == "100"@ {
        FontWeight::Thin
    } else if w == "200"@ {
        FontWeight::Ultralight
    } else if w == "300"@ {
        FontWeight::Light
    } else if w == "500"@ {
        FontWeight::Medium
    } else if w == "600"@ {
        FontWeight::Semibold
    } else if w == "700"@ {
        FontWeight::Bold
    } else if w == "800"@ {
        FontWeight::Ultrabold
    } else if w == "900"@ {
        FontWeight::Heavy
    } else {
        FontWeight::Normal
    }
}

/// The CSS weight string of a weight; the weights without one of their own
/// are written "400".
pub open spec fn css_of_weight(w: FontWeight) -> Seq<char> {
    match w {
        FontWeight::Thin => "100"@,
        FontWeight::Ultralight => "200"@,
        FontWeight::Light => "300"@,
        FontWeight::Normal => "400"@,
        FontWeight::Medium => "500"@,
        FontWeight::Semibold => "600"@,
        FontWeight::Bold => "700"@,
        FontWeight::Ultrabold => "800"@,
        FontWeight::Heavy => "900"@,
        _ => "400"@,
    }
}

/// The weight named by a CSS weight string.
pub fn pango_weight_from_str(w: &str) -> (fw: FontWeight)
    ensures
        fw == weight_of_css(w@),
{
    if str_eq(w, "100") {
        FontWeight::Thin
    } else if str_eq(w, "200") {
        FontWeight::Ultralight
    } else if str_eq(w, "300") {
        FontWeight::Light
    } else if str_eq(w, "500") {
        FontWeight::Medium
    } else if str_eq(w, "600") {
        FontWeight::Semibold
    } else if str_eq(w, "700") {
        FontWeight::Bold
    } else if str_eq(w, "800") {
        FontWeight::Ultrabold
    } else if str_eq(w, "900") {
        FontWeight::Heavy
    } else {
        FontWeight::Normal
    }
}

/// The CSS weight string of a weight.
pub fn pango_weight_to_str(w: FontWeight) -> (s: String)
    ensures
        s@ == css_of_weight(w),
{
    match w {
        FontWeight::Thin => "100",
        FontWeight::Ultralight => "200",
        FontWeight::Light => "300",
        FontWeight::Normal => "400",
        FontWeight::Medium => "500",
        FontWeight::Semibold => "600",
        FontWeight::Bold => "700",
        FontWeight::Ultrabold => "800",
        FontWeight::Heavy => "900",
        _ => "400",
    }.to_owned()
}

/// Why a new passphrase is refused.
#[derive(Debug, Clone, Copy, PartialEq, Eq, Structural)]
pub enum PassphraseError {
    /// Shorter than four characters.
    TooShort,
    /// The confirmation differs.
    Mismatch,
}

impl PassphraseError {
    /// The message shown under the passphrase fields.
    pub fn message(&self) -> (s: String)
        ensures
            s@ == (match self {
                PassphraseError::TooShort => "Passphrase must be at least 4 characters."@,
                PassphraseError::Mismatch => "Passphrases do not match."@,
            }),
    {
        match self {
            PassphraseError::TooShort => "Passphrase must be at least 4 characters.".to_owned(),
            PassphraseError::Mismatch => "Passphrases do not match.".to_owned(),
        }
    }
}

/// Checks a new journal's passphrase and its confirmation: the passphrase
/// must have at least 4 characters, then the two must be equal.
pub fn check_new_passphrase(pass: &str, confirm: &str) -> (r: Result<(), PassphraseError>)
    ensures
        r == (if pass@.len() < 4 {
            Err::<(), PassphraseError>(PassphraseError::TooShort)
        } else if pass@ != confirm@ {
            Err(PassphraseError::Mismatch)
        } else {
            Ok(())
        }),
{
    let chars = crate::text::chars_of(pass);
    if chars.len() < 4 {
        return Err(PassphraseError::TooShort);
    }
    if !str_eq(pass, confirm) {
        return Err(PassphraseError::Mismatch);
    }
    Ok(())
}

/// The title shown for an entry: "Untitled" when it has none.
pub fn display_title(title: &str) -> (s: String)
    ensures
        s@ == (if title@.len() == 0 { "Untitled"@ } else { title@ }),
{
    if title.is_empty() {
        "Untitled".to_owned()
    } else {
        title.to_owned()
    }
}

/// The heading of the unlock prompt for a journal.
pub fn unlock_heading(vault_name: &str) -> (s: String)
    ensures
        s@ == "Unlock \""@ + vault_name@ + "\""@,
{
    let mut s = "Unlock \"".to_owned();
    s.append(vault_name);
    s.append("\"");
    s
}

/// A standard weight's CSS string names it again.
pub proof fn lemma_weight_css_round_trip(w: FontWeight)
    requires
        w != FontWeight::Semilight,
        w != FontWeight::Book,
        w != FontWeight::Ultraheavy,
    ensures
        weight_of_css(css_of_weight(w)) == w,
{
    reveal_strlit("100");
    reveal_strlit("200");
    reveal_strlit("300");
    reveal_strlit("400");
    reveal_strlit("500");
    reveal_strlit("600");
    reveal_strlit("700");
    reveal_strlit("800");
    reveal_strlit("900");
    assert("100"@[0] == '1');
    assert("200"@[0] == '2');
    assert("300"@[0] == '3');
    assert("400"@[0] == '4');
    assert("500"@[0] == '5');
    assert("600"@[0] == '6');
    assert("700"@[0] == '7');
    assert("800"@[0] == '8');
    assert("900"@[0] == '9');
}

/// Each of the nine standard CSS weights, written in decimal ("100" to
/// "900"), reads as the font weight with that number; and the CSS string of
/// a weight with one of those numbers is its number in decimal.
pub proof fn lemma_weight_numbers(n: nat, w: FontWeight)
    requires
        1 <= n <= 9,
    ensures
        weight_number(weight_of_css(decimal(n * 100))) == n * 100,
        weight_number(w) == n * 100 ==> css_of_weight(w) == decimal(n * 100),
{
    reveal_with_fuel(decimal, 3);
    reveal_strlit("100");
    reveal_strlit("200");
    reveal_strlit("300");
    reveal_strlit("400");
    reveal_strlit("500");
    reveal_strlit("600");
    reveal_strlit("700");
    reveal_strlit("800");
    reveal_strlit("900");
    let d = decimal(n * 100);
    assert(d =~= seq![crate::text::digit_char(n as int), '0', '0']);
    assert("100"@ =~= seq!['1', '0', '0']);
    assert("200"@ =~= seq!['2', '0', '0']);
    assert("300"@ =~= seq!['3', '0', '0']);
    assert("400"@ =~= seq!['4', '0', '0']);
    assert("500"@ =~= seq!['5', '0', '0']);
    assert("600"@ =~= seq!['6', '0', '0']);
    assert("700"@ =~= seq!['7', '0', '0']);
    assert("800"@ =~= seq!['8', '0', '0']);
    assert("900"@ =~= seq!['9', '0', '0']);
}

/// Reading a CSS weight string and writing it back gives the same string
/// for the nine standard weights, and "400" for anything else.
pub proof fn lemma_css_weight_round_trip(s: Seq<char>)
    ensures
        css_of_weight(weight_of_css(s)) == (if s == "100"@ || s == "200"@ || s == "300"@ || s == "400"@
            || s == "500"@ || s == "600"@ || s == "700"@ || s == "800"@ || s == "900"@ {
            s
        } else {
            "400"@
        }),
{
    reveal_strlit("100");
    reveal_strlit("200");
    reveal_strlit("300");
    reveal_strlit("400");
    reveal_strlit("500");
    reveal_strlit("600");
    reveal_strlit("700");
    reveal_strlit("800");
    reveal_strlit("900");
    assert("100"@[0] == '1');
    assert("200"@[0] == '2');
    assert("300"@[0] == '3');
    assert("400"@[0] == '4');
    assert("500"@[0] == '5');
    assert("600"@[0] == '6');
    assert("700"@[0] == '7');
    assert("800"@[0] == '8');
    assert("900"@[0] == '9');
}

// ─── dates of entries ──────────────────────────────────────────────────────

/// What parsing an RFC 3339 time gives: its local (year, month, day) and the
/// time formatted with the strftime pattern `fmt`; `None` when the text is
/// not an RFC 3339 time.
pub uninterp spec fn rfc3339_parts(s: Seq<char>, fmt: Seq<char>) -> Option<(i32, u32, u32, Seq<char>)>;

/// Calls `chrono::DateTime::parse_from_rfc3339`, then reads the date with
/// `Datelike::{year, month, day}` and formats the time with `format(fmt)`.
/// Its source reads a four-digit year, and chrono documents months 1 to 12
/// and days 1 to 31. Only the entry-date pattern is admitted, as a pattern
/// that chrono cannot format makes `to_string` panic; nothing else is stated
/// of the formatted text.
#[verifier::external_body]
fn parse_rfc3339(s: &str, fmt: &str) -> (r: Option<(i32, u32, u32, String)>)
    requires
        fmt@ == date_pattern(),
    ensures
        match rfc3339_parts(s@, fmt@) {
            Some((y, m, d, text)) => r matches Some((ry, rm, rd, rt)) && ry == y && rm == m && rd == d && rt@ == text,
            None => r is None,
        },
        r matches Some((y, m, d, _)) ==> 0 <= y <= 9999 && 1 <= m <= 12 && 1 <= d <= 31,
{
    match chrono::DateTime::parse_from_rfc3339(s) {
        Ok(dt) => Some((dt.year(), dt.month(), dt.day(), dt.format(fmt).to_string())),
        Err(_) => None,
    }
}

/// The pattern of entry dates: day without padding, abbreviated month, year.
pub open spec fn date_pattern() -> Seq<char> {
    "%-d %b %Y"@
}

/// The date shown for an entry created at `created`: its day, abbreviated
/// month and year, or "—" when it is not an RFC 3339 time.
pub open spec fn date_label_spec(created: Seq<char>) -> Seq<char> {
    match rfc3339_parts(created, date_pattern()) {
        Some((_, _, _, text)) => text,
        None => "—"@,
    }
}

/// The date shown for an entry created at `created`, or `None` when it is
/// not an RFC 3339 time.
pub fn date_text(created: &str) -> (s: Option<String>)
    ensures
        match rfc3339_parts(created@, date_pattern()) {
            Some((_, _, _, text)) => s matches Some(t) && t@ == text,
            None => s is None,
        },
{
    match parse_rfc3339(created, "%-d %b %Y") {
        Some((_, _, _, text)) => Some(text),
        None => None,
    }
}

/// The date shown for an entry created at `created`: "—" when it is not an
/// RFC 3339 time.
pub fn entry_date_label(created: &str) -> (s: String)
    ensures
        s@ == date_label_spec(created@),
{
    match date_text(created) {
        Some(text) => text,
        None => "—".to_owned(),
    }
}

/// The local (year, month, day) of an RFC 3339 time.
pub fn entry_day(created: &str) -> (d: Option<(i32, u32, u32)>)
    ensures
        match rfc3339_parts(created@, date_pattern()) {
            Some((y, m, dd, _)) => d == Some((y, m, dd)),
            None => d is None,
        },
        d matches Some((y, m, dd)) ==> 0 <= y <= 9999 && 1 <= m <= 12 && 1 <= dd <= 31,
{
    match parse_rfc3339(created, "%-d %b %Y") {
        Some((y, m, dd, _)) => Some((y, m, dd)),
        None => None,
    }
}

/// The local date (year, month, day) of an entry, when its creation time
/// parses.
pub open spec fn created_date(e: Entry) -> Option<(i32, u32, u32)> {
    match rfc3339_parts(e.created@, date_pattern()) {
        Some((y, m, d, _)) => Some((y, m, d)),
        None => None,
    }
}

/// The entry was created in `month` of `year`.
pub open spec fn in_month(e: Entry, year: i32, month: u32) -> bool {
    created_date(e) matches Some((y, m, _)) && y == year && m == month
}

/// The entry was created on `day` of `month` of `year`.
pub open spec fn on_day(e: Entry, year: i32, month: u32, day: u32) -> bool {
    created_date(e) matches Some((y, m, d)) && y == year && m == month && d == day
}

/// The day of the month an entry was created on (0 when unknown).
pub open spec fn created_day(e: Entry) -> u32 {
    match created_date(e) {
        Some((_, _, d)) => d,
        None => 0,
    }
}

/// The calendar of a month: the days to mark, one per entry created in the
/// month, in the entries' order; and the entries created on the selected day.
pub fn calendar_month<'a>(entries: &'a Vec<Entry>, year: i32, month: u32, day: u32) -> (r: (Vec<u32>, Vec<&'a Entry>))
    ensures
        r.0@ == entries@.filter(|e: Entry| in_month(e, year, month)).map_values(|e: Entry| created_day(e)),
        entries_of(r.1@) == entries@.filter(|e: Entry| on_day(e, year, month, day)),
{
    let ghost in_m = |e: Entry| in_month(e, year, month);
    let ghost on_d = |e: Entry| on_day(e, year, month, day);
    let ghost dayf = |e: Entry| created_day(e);
    let n = entries.len();
    let mut marks: Vec<u32> = Vec::new();
    let mut listed: Vec<&'a Entry> = Vec::new();
    let mut i: usize = 0;
    while i < n
        invariant
            n == entries@.len(),
            i <= n,
            in_m == (|e: Entry| in_month(e, year, month)),
            on_d == (|e: Entry| on_day(e, year, month, day)),
            dayf == (|e: Entry| created_day(e)),
            marks@ == entries@.take(i as int).filter(in_m).map_values(dayf),
            listed@.len() == entries_of(listed@).len(),
            entries_of(listed@) == entries@.take(i as int).filter(on_d),
        decreases n - i,
    {
        let e = &entries[i];
        proof {
            assert(entries@.take(i + 1) =~= entries@.take(i as int).push(*e));
            entries@.take(i as int).lemma_filter_push(*e, in_m);
            entries@.take(i as int).lemma_filter_push(*e, on_d);
        }
        let ghost prev_marks = entries@.take(i as int).filter(in_m);
        let ghost prev_listed = listed@;
        match parse_rfc3339(e.created.as_str(), "%-d %b %Y") {
            Some((y, m, d, _)) => {
                if y == year && m == month {
                    marks.push(d);
                    proof {
                        assert(prev_marks.push(*e).map_values(dayf) =~= prev_marks.map_values(dayf).push(d));
                    }
                    if d == day {
                        listed.push(e);
                        assert forall|j: int| 0 <= j < listed@.len() implies #[trigger] entries_of(listed@)[j]
                            == entries@.take(i + 1).filter(on_d)[j] by {
                            if j < entries_of(prev_listed).len() {
                                assert(entries_of(prev_listed)[j] == entries@.take(i as int).filter(on_d)[j]);
                            }
                        }
                    }
                }
            },
            None => {},
        }
        i += 1;
        assert(entries_of(listed@) =~= entries@.take(i as int).filter(on_d));
    }
    assert(entries@.take(n as int) =~= entries@);
    (marks, listed)
}

// ─── editor helpers ────────────────────────────────────────────────────────

/// The creation time given to an entry backdated to a calendar day: midnight
/// UTC, as "YYYY-MM-DDT00:00:00+00:00".
pub open spec fn backdate_stamp_spec(year: u32, month: u32, day: u32) -> Seq<char> {
    crate::text::zero_padded(year as nat, 4) + "-"@ + crate::text::zero_padded(month as nat, 2) + "-"@
        + crate::text::zero_padded(day as nat, 2) + "T00:00:00+00:00"@
}

/// A backdated creation time reads, field by field, as the day it was made
/// for: four digits that denote the year, '-', two digits that denote the
/// month, '-', two digits that denote the day, then midnight UTC.
pub proof fn lemma_backdate_stamp_fields(year: u32, month: u32, day: u32)
    requires
        year < 10000,
        month < 100,
        day < 100,
    ensures
        backdate_stamp_spec(year, month, day).len() == 25,
        crate::text::digits_value(backdate_stamp_spec(year, month, day).subrange(0, 4)) == year,
        backdate_stamp_spec(year, month, day)[4] == '-',
        crate::text::digits_value(backdate_stamp_spec(year, month, day).subrange(5, 7)) == month,
        backdate_stamp_spec(year, month, day)[7] == '-',
        crate::text::digits_value(backdate_stamp_spec(year, month, day).subrange(8, 10)) == day,
        backdate_stamp_spec(year, month, day).subrange(10, 25) == "T00:00:00+00:00"@,
        forall|i: int| 0 <= i < 10 && i != 4 && i != 7
            ==> crate::text::is_digit(#[trigger] backdate_stamp_spec(year, month, day)[i]),
{
    reveal_strlit("-");
    reveal_strlit("T00:00:00+00:00");
    crate::text::lemma_decimal_len(year as nat);
    crate::text::lemma_decimal_len(month as nat);
    crate::text::lemma_decimal_len(day as nat);
    crate::text::lemma_zero_padded_denotes(year as nat, 4);
    crate::text::lemma_zero_padded_denotes(month as nat, 2);
    crate::text::lemma_zero_padded_denotes(day as nat, 2);
    let y = crate::text::zero_padded(year as nat, 4);
    let m = crate::text::zero_padded(month as nat, 2);
    let d = crate::text::zero_padded(day as nat, 2);
    let s = backdate_stamp_spec(year, month, day);
    assert(s == y + "-"@ + m + "-"@ + d + "T00:00:00+00:00"@);
    assert(s.subrange(0, 4) =~= y);
    assert(s.subrange(5, 7) =~= m);
    assert(s.subrange(8, 10) =~= d);
    assert(s.subrange(10, 25) =~= "T00:00:00+00:00"@);
    assert forall|i: int| 0 <= i < 10 && i != 4 && i != 7
        implies crate::text::is_digit(#[trigger] s[i]) by {
        if i < 4 {
            assert(s[i] == y[i]);
        } else if i < 7 {
            assert(s[i] == m[i - 5]);
        } else {
            assert(s[i] == d[i - 8]);
        }
    }
}

/// The creation time of an entry backdated to `year`-`month`-`day`.
pub fn backdate_stamp(year: u32, month: u32, day: u32) -> (s: String)
    ensures
        s@ == backdate_stamp_spec(year, month, day),
{
    let mut s = crate::text::zero_pad(year, 4);
    s.append("-");
    let m = crate::text::zero_pad(month, 2);
    s.append(m.as_str());
    s.append("-");
    let d = crate::text::zero_pad(day, 2);
    s.append(d.as_str());
    s.append("T00:00:00+00:00");
    s
}

/// The family handed to the font chooser: the first family of a CSS font
/// list, without surrounding white space.
pub fn base_family(family: &str) -> (s: String)
    ensures
        s@ == crate::text::trim_spec(crate::text::first_field(family@, ',')),
{
    let first = crate::text::split_first(family, ',');
    crate::text::trim(first.as_str())
}

/// An attachment of MIME type `mime` is a video when the type begins with
/// "video/", else an image.
pub fn media_kind_for(mime: &str) -> (k: MediaKind)
    ensures
        k == (if crate::text::is_prefix("video/"@, mime@) { MediaKind::Video } else { MediaKind::Image }),
{
    if crate::text::starts_with(mime, "video/") {
        MediaKind::Video
    } else {
        MediaKind::Image
    }
}

/// The question asked before a journal is deleted.
pub fn delete_journal_message(name: &str) -> (s: String)
    ensures
        s@ == "Delete \""@ + name@ + "\"? This cannot be undone."@,
{
    let mut s = "Delete \"".to_owned();
    s.append(name);
    s.append("\"? This cannot be undone.");
    s
}

/// The icon of the dark-mode button: a sun in dark mode, a moon in light
/// mode.
pub fn dark_mode_icon(dark: bool) -> (name: &'static str)
    ensures
        name@ == (if dark { "weather-clear-symbolic"@ } else { "weather-clear-night-symbolic"@ }),
{
    if dark {
        "weather-clear-symbolic"
    } else {
        "weather-clear-night-symbolic"
    }
}

} // verus!
