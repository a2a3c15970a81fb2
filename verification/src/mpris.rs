//! What the bottom bar shows of the session's media player: choosing the
//! player, reading its metadata and playback status.

use vstd::prelude::*;
use vstd::string::*;
use crate::text::{is_prefix, starts_with, str_eq, strip_prefix};

verus! {

/// The state of the media player.
#[derive(Debug, Clone, Copy, PartialEq, Eq, Structural)]
pub enum PlaybackStatus {
    Stopped,
    Playing,
    Paused,
}

impl Default for PlaybackStatus {
    fn default() -> (s: PlaybackStatus)
        ensures
            s == PlaybackStatus::Stopped,
    {
        PlaybackStatus::Stopped
    }
}

impl PlaybackStatus {
    /// The icon of the play/pause button: "pause" while playing, else "start".
    pub fn icon(&self) -> (name: &'static str)
        ensures
            name@ == (if *self == PlaybackStatus::Playing {
                "media-playback-pause-symbolic"@
            } else {
                "media-playback-start-symbolic"@
            }),
    {
        match self {
            PlaybackStatus::Playing => "media-playback-pause-symbolic",
            _ => "media-playback-start-symbolic",
        }
    }

    /// The status named by the player's `PlaybackStatus` property; anything
    /// but "Playing" and "Paused" is `Stopped`.
    pub fn from_property(s: &str) -> (st: PlaybackStatus)
        ensures
            st == (if s@ == "Playing"@ {
                PlaybackStatus::Playing
            } else if s@ == "Paused"@ {
                PlaybackStatus::Paused
            } else {
                PlaybackStatus::Stopped
            }),
    {
        if str_eq(s, "Playing") {
            PlaybackStatus::Playing
        } else if str_eq(s, "Paused") {
            PlaybackStatus::Paused
        } else {
            PlaybackStatus::Stopped
        }
    }
}

/// What is playing, as shown in the bottom bar.
#[derive(Debug, Clone)]
pub struct NowPlaying {
    pub _player: String,
    pub title: String,
    pub artist: String,
    pub _album: String,
    pub status: PlaybackStatus,
    pub _can_play: bool,
    pub _can_next: bool,
    pub _can_prev: bool,
}

impl Default for NowPlaying {
    fn default() -> (np: NowPlaying)
        ensures
            np._player@.len() == 0,
            np.title@.len() == 0,
            np.artist@.len() == 0,
            np._album@.len() == 0,
            np.status == PlaybackStatus::Stopped,
            !np._can_play && !np._can_next && !np._can_prev,
    {
        NowPlaying {
            _player: String::new(),
            title: String::new(),
            artist: String::new(),
            _album: String::new(),
            status: PlaybackStatus::Stopped,
            _can_play: false,
            _can_next: false,
            _can_prev: false,
        }
    }
}

/// A metadata value of the player, as far as it is read here.
#[derive(Debug, Clone)]
pub enum MetaValue {
    Str(String),
    Array(Vec<MetaItem>),
    Other,
}

/// An item of an array metadata value.
#[derive(Debug, Clone)]
pub enum MetaItem {
    Str(String),
    Other,
}

/// The value stored under `key` (the first pair with that key).
pub open spec fn meta_lookup(map: Seq<(String, MetaValue)>, key: Seq<char>) -> Option<MetaValue>
    decreases map.len(),
{
    if map.len() == 0 {
        None
    } else if map[0].0@ == key {
        Some(map[0].1)
    } else {
        meta_lookup(map.skip(1), key)
    }
}

/// The text of a string value; empty for anything else.
pub open spec fn meta_str(v: Option<MetaValue>) -> Seq<char> {
    match v {
        Some(MetaValue::Str(s)) => s@,
        _ => Seq::empty(),
    }
}

/// The first string among some array items; empty when there is none.
pub open spec fn first_str_item(items: Seq<MetaItem>) -> Seq<char>
    decreases items.len(),
{
    if items.len() == 0 {
        Seq::empty()
    } else {
        match items[0] {
            MetaItem::Str(s) => s@,
            MetaItem::Other => first_str_item(items.skip(1)),
        }
    }
}

/// The first string item of an array value; empty for anything else.
pub open spec fn meta_arr_str(v: Option<MetaValue>) -> Seq<char> {
    match v {
        Some(MetaValue::Array(items)) => first_str_item(items@),
        _ => Seq::empty(),
    }
}

/// The value stored under `key`.
fn lookup<'a>(map: &'a Vec<(String, MetaValue)>, key: &str) -> (r: Option<&'a MetaValue>)
    ensures
        match meta_lookup(map@, key@) {
            Some(v) => r matches Some(x) && *x == v,
            None => r is None,
        },
{
    let n = map.len();
    let mut i: usize = 0;
    assert(map@.skip(0) =~= map@);
    while i < n
        invariant
            n == map@.len(),
            i <= n,
            meta_lookup(map@, key@) == meta_lookup(map@.skip(i as int), key@),
        decreases n - i,
    {
        let ghost rest = map@.skip(i as int);
        assert(rest[0] == map@[i as int]);
        if str_eq(map[i].0.as_str(), key) {
            return Some(&map[i].1);
        }
        assert(rest.skip(1) =~= map@.skip(i + 1));
        i += 1;
    }
    None
}

/// The text of the string value stored under `key`; empty when there is
/// none or it is not a string.
pub fn str_meta(map: &Vec<(String, MetaValue)>, key: &str) -> (s: String)
    ensures
        s@ == meta_str(meta_lookup(map@, key@)),
{
    match lookup(map, key) {
        Some(MetaValue::Str(s)) => s.clone(),
        _ => String::new(),
    }
}

/// The first string of the array value stored under `key`; empty when there
/// is none.
pub fn arr_str_meta(map: &Vec<(String, MetaValue)>, key: &str) -> (s: String)
    ensures
        s@ == meta_arr_str(meta_lookup(map@, key@)),
{
    match lookup(map, key) {
        Some(MetaValue::Array(items)) => {
            let n = items.len();
            let mut i: usize = 0;
            assert(items@.skip(0) =~= items@);
            while i < n
                invariant
                    n == items@.len(),
                    i <= n,
                    meta_arr_str(meta_lookup(map@, key@)) == first_str_item(items@),
                    first_str_item(items@) == first_str_item(items@.skip(i as int)),
                decreases n - i,
            {
                let ghost rest = items@.skip(i as int);
                assert(rest[0] == items@[i as int]);
                match &items[i] {
                    MetaItem::Str(s) => {
                        return s.clone();
                    },
                    MetaItem::Other => {},
                }
                assert(rest.skip(1) =~= items@.skip(i + 1));
                i += 1;
            }
            String::new()
        },
        _ => String::new(),
    }
}

/// The bus-name prefix of media players.
pub open spec fn player_prefix() -> Seq<char> {
    "org.mpris.MediaPlayer2."@
}

/// The first bus name that belongs to a media player.
pub fn find_player(names: &Vec<String>) -> (r: Option<String>)
    ensures
        match r {
            Some(b) => exists|i: int|
                0 <= i < names@.len() && is_prefix(player_prefix(), #[trigger] names@[i]@)
                && b@ == names@[i]@
                && forall|j: int| 0 <= j < i ==> !is_prefix(player_prefix(), #[trigger] names@[j]@),
            None => forall|j: int| 0 <= j < names@.len() ==> !is_prefix(player_prefix(), #[trigger] names@[j]@),
        },
{
    let n = names.len();
    let mut i: usize = 0;
    while i < n
        invariant
            n == names@.len(),
            i <= n,
            forall|j: int| 0 <= j < i ==> !is_prefix(player_prefix(), #[trigger] names@[j]@),
        decreases n - i,
    {
        if starts_with(names[i].as_str(), "org.mpris.MediaPlayer2.") {
            return Some(names[i].clone());
        }
        i += 1;
    }
    None
}

/// The player's short name: its bus name without the player prefix.
pub fn player_name(bus_name: &str) -> (s: String)
    ensures
        s@ == (if is_prefix(player_prefix(), bus_name@) {
            bus_name@.skip(player_prefix().len() as int)
        } else {
            bus_name@
        }),
{
    match strip_prefix(bus_name, "org.mpris.MediaPlayer2.") {
        Some(rest) => rest,
        None => bus_name.to_owned(),
    }
}

impl NowPlaying {
    /// What is playing on the player at `bus_name`, from its `Metadata`,
    /// `PlaybackStatus`, `CanPlay`, `CanGoNext` and `CanGoPrevious` properties.
    pub fn from_properties(
        bus_name: &str,
        metadata: &Vec<(String, MetaValue)>,
        status: &str,
        can_play: bool,
        can_next: bool,
        can_prev: bool,
    ) -> (np: NowPlaying)
        ensures
            np._player@ == (if is_prefix(player_prefix(), bus_name@) {
                bus_name@.skip(player_prefix().len() as int)
            } else {
                bus_name@
            }),
            np.title@ == meta_str(meta_lookup(metadata@, "xesam:title"@)),
            np.artist@ == meta_arr_str(meta_lookup(metadata@, "xesam:artist"@)),
            np._album@ == meta_str(meta_lookup(metadata@, "xesam:album"@)),
            np.status == (if status@ == "Playing"@ {
                PlaybackStatus::Playing
            } else if status@ == "Paused"@ {
                PlaybackStatus::Paused
            } else {
                PlaybackStatus::Stopped
            }),
            np._can_play == can_play,
            np._can_next == can_next,
            np._can_prev == can_prev,
    {
        NowPlaying {
            _player: player_name(bus_name),
            title: str_meta(metadata, "xesam:title"),
            artist: arr_str_meta(metadata, "xesam:artist"),
            _album: str_meta(metadata, "xesam:album"),
            status: PlaybackStatus::from_property(status),
            _can_play: can_play,
            _can_next: can_next,
            _can_prev: can_prev,
        }
    }
}

} // verus!
