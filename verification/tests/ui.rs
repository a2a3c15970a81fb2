use blossom::ui::{backdate_stamp, base_family, dark_mode_icon, delete_journal_message, media_kind_for};
use blossom::types::MediaKind;
use blossom::ui::{
    check_new_passphrase, display_title, guess_mime, pango_weight_from_str, pango_weight_to_str,
    unlock_heading, FontWeight, PassphraseError,
};

#[test]
fn mime_types() {
    assert_eq!(guess_mime(Some("jpg")), "image/jpeg");
    assert_eq!(guess_mime(Some("jpeg")), "image/jpeg");
    assert_eq!(guess_mime(Some("png")), "image/png");
    assert_eq!(guess_mime(Some("gif")), "image/gif");
    assert_eq!(guess_mime(Some("webp")), "image/webp");
    assert_eq!(guess_mime(Some("mp4")), "video/mp4");
    assert_eq!(guess_mime(Some("webm")), "video/webm");
    assert_eq!(guess_mime(Some("mkv")), "video/x-matroska");
    assert_eq!(guess_mime(Some("mov")), "video/quicktime");
    assert_eq!(guess_mime(Some("PNG")), "application/octet-stream");
    assert_eq!(guess_mime(None), "application/octet-stream");
}

#[test]
fn font_weights() {
    for s in ["100", "200", "300", "400", "500", "600", "700", "800", "900"] {
        assert_eq!(pango_weight_to_str(pango_weight_from_str(s)), s);
    }
    assert_eq!(pango_weight_from_str("bold"), FontWeight::Normal);
    assert_eq!(pango_weight_from_str("700"), FontWeight::Bold);
    assert_eq!(pango_weight_to_str(FontWeight::Semilight), "400");
    assert_eq!(pango_weight_to_str(FontWeight::Ultraheavy), "400");
}

#[test]
fn passphrase_rules() {
    assert_eq!(check_new_passphrase("abc", "abc"), Err(PassphraseError::TooShort));
    assert_eq!(check_new_passphrase("abcd", "abce"), Err(PassphraseError::Mismatch));
    assert_eq!(check_new_passphrase("abcd", "abcd"), Ok(()));
    assert_eq!(check_new_passphrase("éé", "éé"), Err(PassphraseError::TooShort));
    assert_eq!(check_new_passphrase("éééé", "éééé"), Ok(()));
    assert_eq!(PassphraseError::TooShort.message(), "Passphrase must be at least 4 characters.");
    assert_eq!(PassphraseError::Mismatch.message(), "Passphrases do not match.");
}

#[test]
fn display_texts() {
    assert_eq!(display_title(""), "Untitled");
    assert_eq!(display_title("Day one"), "Day one");
    assert_eq!(unlock_heading("Travel"), "Unlock \"Travel\"");
}


#[test]
fn editor_helpers() {
    assert_eq!(backdate_stamp(2024, 3, 5), "2024-03-05T00:00:00+00:00");
    assert_eq!(backdate_stamp(987, 12, 31), "0987-12-31T00:00:00+00:00");
    assert_eq!(base_family("Georgia, serif"), "Georgia");
    assert_eq!(base_family("  Fira Sans  "), "Fira Sans");
    assert_eq!(media_kind_for("video/mp4"), MediaKind::Video);
    assert_eq!(media_kind_for("image/png"), MediaKind::Image);
    assert_eq!(media_kind_for("application/octet-stream"), MediaKind::Image);
    assert_eq!(delete_journal_message("Work"), "Delete \"Work\"? This cannot be undone.");
    assert_eq!(dark_mode_icon(true), "weather-clear-symbolic");
    assert_eq!(dark_mode_icon(false), "weather-clear-night-symbolic");
}
