use blossom::crypto::b64_decode;
use blossom::crypto::SALT_LEN;
use blossom::session::AppState;
use blossom::settings::{Accent, AppSettings};
use blossom::types::{Entry, MediaItem, MediaKind};
use blossom::ui::{calendar_month, entry_date_label};
use blossom::vault::Vault;

fn entry(id: &str, title: &str, created: &str) -> Entry {
    Entry {
        id: id.to_string(),
        title: title.to_string(),
        body: String::new(),
        created: created.to_string(),
        updated: created.to_string(),
        media: Vec::new(),
        pinned: false,
    }
}

fn vault(entries: Vec<Entry>) -> Vault {
    Vault {
        name: "J".to_string(),
        key: [1u8; 32],
        salt: [2u8; SALT_LEN],
        entries,
        font_family: "Georgia, serif".to_string(),
        font_weight: "400".to_string(),
    }
}

#[test]
fn new_state_is_empty() {
    let st = AppState::new(AppSettings { accent: Accent::Ember, dark_mode: true });
    assert!(st.vault.is_none());
    assert!(st.current_entry_id.is_none());
    assert!(st.search_query.is_empty());
    assert!(!st.suppress_change);
    assert_eq!(st.settings.accent, Accent::Ember);
    assert!(st.listed_entries().is_none());
}

#[test]
fn listed_entries_follow_the_search() {
    let mut st = AppState::new(AppSettings::default());
    st.open_vault(vault(vec![entry("a", "Apples", "x"), entry("b", "Bananas", "x")]));
    assert_eq!(st.listed_entries().unwrap().len(), 2);
    st.search_query = "BAN".to_string();
    let l = st.listed_entries().unwrap();
    assert_eq!(l.len(), 1);
    assert_eq!(l[0].id, "b");
}

#[test]
fn commit_edit_updates_the_current_entry() {
    let mut st = AppState::new(AppSettings::default());
    assert!(!st.commit_edit_at("t".into(), "b".into(), "now".into()));
    st.open_vault(vault(vec![entry("a", "", "c"), entry("b", "", "c")]));
    assert!(!st.commit_edit_at("t".into(), "b".into(), "now".into()));
    st.current_entry_id = Some("b".to_string());
    st.suppress_change = true;
    assert!(!st.commit_edit_at("t".into(), "b".into(), "now".into()));
    st.suppress_change = false;
    assert!(st.commit_edit_at("Title".into(), "Body".into(), "2024-01-01T00:00:00+00:00".into()));
    let v = st.vault.as_ref().unwrap();
    let e = v.get_entry("b").unwrap();
    assert_eq!(e.title, "Title");
    assert_eq!(e.body, "Body");
    assert_eq!(e.updated, "2024-01-01T00:00:00+00:00");
    assert_eq!(e.created, "c");
    assert_eq!(v.get_entry("a").unwrap().title, "");
    st.current_entry_id = Some("gone".to_string());
    assert!(st.commit_edit("x".into(), "y".into()));
}

#[test]
fn add_new_entry_selects_it() {
    let mut st = AppState::new(AppSettings::default());
    assert!(st.add_new_entry().is_none());
    st.open_vault(vault(vec![entry("a", "", "c")]));
    let id = st.add_new_entry().unwrap();
    assert_eq!(st.current_entry_id.as_deref(), Some(id.as_str()));
    let v = st.vault.as_ref().unwrap();
    assert_eq!(v.entries.len(), 2);
    assert_eq!(v.entries[0].id, id);
    assert_eq!(v.entries[1].id, "a");
    let b = id.as_bytes();
    assert_eq!(b.len(), 36);
    assert_eq!(b[14], b'4');
    assert!(matches!(b[19], b'8' | b'9' | b'a' | b'b'));
    assert!(v.entries[0].created.ends_with("+00:00"));
    assert_eq!(v.entries[0].created, v.entries[0].updated);
}

#[test]
fn remove_media_from_an_entry() {
    let mut st = AppState::new(AppSettings::default());
    assert!(!st.remove_media("a", "m"));
    let mut e = entry("a", "", "c");
    e.media.push(MediaItem { id: "m".into(), kind: MediaKind::Video, data: String::new(), mime: "video/mp4".into() });
    e.media.push(MediaItem { id: "n".into(), kind: MediaKind::Image, data: String::new(), mime: "image/png".into() });
    st.open_vault(vault(vec![e]));
    assert!(st.remove_media("a", "m"));
    let v = st.vault.as_ref().unwrap();
    assert_eq!(v.entries[0].media.len(), 1);
    assert_eq!(v.entries[0].media[0].id, "n");
}

#[test]
fn entry_date_labels() {
    assert_eq!(entry_date_label("2024-03-05T10:00:00+00:00"), "5 Mar 2024");
    assert_eq!(entry_date_label("2023-12-25T23:59:59-05:00"), "25 Dec 2023");
    assert_eq!(entry_date_label("not a date"), "—");
}

#[test]
fn calendar_marks_and_lists() {
    let entries = vec![
        entry("a", "", "2024-03-05T10:00:00+00:00"),
        entry("b", "", "2024-04-05T10:00:00+00:00"),
        entry("c", "", "2024-03-17T10:00:00+00:00"),
        entry("d", "", "garbage"),
        entry("e", "", "2024-03-05T22:00:00+00:00"),
    ];
    let (marks, listed) = calendar_month(&entries, 2024, 3, 5);
    assert_eq!(marks, vec![5, 17, 5]);
    let ids: Vec<&str> = listed.iter().map(|e| e.id.as_str()).collect();
    assert_eq!(ids, vec!["a", "e"]);
    let (marks, listed) = calendar_month(&entries, 2023, 3, 5);
    assert!(marks.is_empty() && listed.is_empty());
}

#[test]
fn attach_delete_backdate_and_font() {
    let mut st = AppState::new(AppSettings::default());
    let item = MediaItem::attachment("video/webm".to_string(), b"\x00\x01\x02");
    assert_eq!(item.kind, MediaKind::Video);
    assert_eq!(b64_decode(&item.data).unwrap(), vec![0, 1, 2]);
    assert!(!st.attach_media(item.clone()));
    st.open_vault(vault(vec![entry("a", "", "c"), entry("b", "", "c")]));
    st.current_entry_id = Some("a".to_string());
    assert!(st.attach_media(item));
    assert_eq!(st.vault.as_ref().unwrap().entries[0].media.len(), 1);
    assert!(st.set_created("b", "2020-01-01T00:00:00+00:00".to_string()));
    assert_eq!(st.vault.as_ref().unwrap().entries[1].created, "2020-01-01T00:00:00+00:00");
    assert!(st.set_font("Inter".to_string(), "700".to_string()));
    assert_eq!(st.vault.as_ref().unwrap().font_family, "Inter");
    assert!(st.delete_current_entry());
    assert!(st.current_entry_id.is_none());
    let ids: Vec<String> = st.vault.as_ref().unwrap().entries.iter().map(|e| e.id.clone()).collect();
    assert_eq!(ids, vec!["b"]);
    assert!(!st.delete_current_entry());
}

#[test]
fn home_closes_the_journal() {
    let mut st = AppState::new(AppSettings::default());
    st.open_vault(vault(vec![entry("a", "", "c")]));
    st.current_entry_id = Some("a".to_string());
    st.search_query = "q".to_string();
    st.close_vault();
    assert!(st.vault.is_none());
    assert!(st.current_entry_id.is_none());
    assert_eq!(st.search_query, "q");
    assert!(st.listed_entries().is_none());
}

#[test]
fn commit_edit_stamps_utc() {
    let mut st = AppState::new(AppSettings::default());
    st.open_vault(vault(vec![entry("a", "", "c")]));
    st.current_entry_id = Some("a".to_string());
    assert!(st.commit_edit("t".into(), "b".into()));
    assert!(st.vault.as_ref().unwrap().entries[0].updated.ends_with("+00:00"));
}
