use blossom::mpris::{arr_str_meta, find_player, player_name, str_meta, MetaItem, MetaValue, NowPlaying, PlaybackStatus};

fn meta() -> Vec<(String, MetaValue)> {
    vec![
        ("xesam:title".to_string(), MetaValue::Str("Song".to_string())),
        (
            "xesam:artist".to_string(),
            MetaValue::Array(vec![MetaItem::Other, MetaItem::Str("Band".to_string()), MetaItem::Str("Other".to_string())]),
        ),
        ("xesam:album".to_string(), MetaValue::Other),
    ]
}

#[test]
fn playback_icons() {
    assert_eq!(PlaybackStatus::Playing.icon(), "media-playback-pause-symbolic");
    assert_eq!(PlaybackStatus::Paused.icon(), "media-playback-start-symbolic");
    assert_eq!(PlaybackStatus::Stopped.icon(), "media-playback-start-symbolic");
    assert_eq!(PlaybackStatus::default(), PlaybackStatus::Stopped);
}

#[test]
fn playback_status_from_property() {
    assert_eq!(PlaybackStatus::from_property("Playing"), PlaybackStatus::Playing);
    assert_eq!(PlaybackStatus::from_property("Paused"), PlaybackStatus::Paused);
    assert_eq!(PlaybackStatus::from_property("Stopped"), PlaybackStatus::Stopped);
    assert_eq!(PlaybackStatus::from_property("playing"), PlaybackStatus::Stopped);
}

#[test]
fn metadata_lookup() {
    let m = meta();
    assert_eq!(str_meta(&m, "xesam:title"), "Song");
    assert_eq!(str_meta(&m, "xesam:album"), "");
    assert_eq!(str_meta(&m, "missing"), "");
    assert_eq!(arr_str_meta(&m, "xesam:artist"), "Band");
    assert_eq!(arr_str_meta(&m, "xesam:title"), "");
}

#[test]
fn player_selection() {
    let names = vec![
        "org.freedesktop.DBus".to_string(),
        "org.mpris.MediaPlayer2.spotify".to_string(),
        "org.mpris.MediaPlayer2.vlc".to_string(),
    ];
    assert_eq!(find_player(&names), Some("org.mpris.MediaPlayer2.spotify".to_string()));
    assert_eq!(find_player(&vec!["a".to_string()]), None);
    assert_eq!(player_name("org.mpris.MediaPlayer2.vlc"), "vlc");
    assert_eq!(player_name("custom"), "custom");
}

#[test]
fn now_playing_from_properties() {
    let np = NowPlaying::from_properties("org.mpris.MediaPlayer2.mpv", &meta(), "Paused", true, false, true);
    assert_eq!(np._player, "mpv");
    assert_eq!(np.title, "Song");
    assert_eq!(np.artist, "Band");
    assert_eq!(np._album, "");
    assert_eq!(np.status, PlaybackStatus::Paused);
    assert!(np._can_play && !np._can_next && np._can_prev);
}

#[test]
fn now_playing_default() {
    let np = NowPlaying::default();
    assert!(np.title.is_empty() && np.artist.is_empty());
    assert_eq!(np.status, PlaybackStatus::Stopped);
}
