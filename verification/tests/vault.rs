use blossom::crypto::{b64_decode, b64_encode, derive_key, VaultError, SALT_LEN};
use blossom::types::{default_font, default_weight, EncryptedBlob, Entry, MediaItem, MediaKind, VaultFile};
use blossom::vault::{is_vault_file, listed_vault_name, new_vault_file_name, vault_file_name, Vault};

fn entry(id: &str, title: &str, body: &str) -> Entry {
    Entry {
        id: id.to_string(),
        title: title.to_string(),
        body: body.to_string(),
        created: "2024-01-02T03:04:05+00:00".to_string(),
        updated: "2024-01-02T03:04:05+00:00".to_string(),
        media: Vec::new(),
        pinned: false,
    }
}

fn ids(v: &[&Entry]) -> Vec<String> {
    v.iter().map(|e| e.id.clone()).collect()
}

fn all_ids(v: &Vault) -> Vec<String> {
    v.entries.iter().map(|e| e.id.clone()).collect()
}

fn vault_with(entries: Vec<Entry>) -> Vault {
    Vault {
        name: "Test".to_string(),
        key: [5u8; 32],
        salt: [6u8; SALT_LEN],
        entries,
        font_family: default_font(),
        font_weight: default_weight(),
    }
}

#[test]
fn create_then_seal_then_open_gives_the_entries_back() {
    let v = Vault::create("My Journal", "hunter22").unwrap();
    assert_eq!(v.name, "My Journal");
    assert!(v.entries.is_empty());
    assert_eq!(v.font_family, "Georgia, serif");
    assert_eq!(v.font_weight, "400");
    assert_eq!(v.key, derive_key("hunter22", &v.salt).unwrap());

    let plain = br#"[{"id":"a"}]"#;
    let file = v.seal(plain).unwrap();
    assert_eq!(file.name, "My Journal");
    assert_eq!(b64_decode(&file.salt).unwrap(), v.salt.to_vec());
    assert_eq!(b64_decode(&file.entries.n).unwrap().len(), 12);

    let (w, back) = Vault::open(&file, "hunter22").unwrap();
    assert_eq!(back, plain.to_vec());
    assert_eq!(w.key, v.key);
    assert_eq!(w.salt, v.salt);
    assert_eq!(w.name, v.name);
    assert_eq!(w.font_family, v.font_family);
    assert!(w.entries.is_empty());
}

#[test]
fn wrong_passphrase_is_refused() {
    let v = Vault::create("J", "right-pass").unwrap();
    let file = v.seal(b"[]").unwrap();
    assert_eq!(Vault::open(&file, "wrong-pass").err(), Some(VaultError::Decrypt));
}

#[test]
fn open_reports_bad_fields() {
    let v = Vault::create("J", "pass").unwrap();
    let good = v.seal(b"[]").unwrap();

    let mut bad_salt = good.clone();
    bad_salt.salt = "!!".to_string();
    assert_eq!(Vault::open(&bad_salt, "pass").err(), Some(VaultError::InvalidBase64));

    let mut short_salt = good.clone();
    short_salt.salt = b64_encode(&[1, 2, 3]);
    assert_eq!(Vault::open(&short_salt, "pass").err(), Some(VaultError::SaltLength));

    let mut bad_nonce = good.clone();
    bad_nonce.entries = EncryptedBlob { n: "??".to_string(), c: good.entries.c.clone() };
    assert_eq!(Vault::open(&bad_nonce, "pass").err(), Some(VaultError::InvalidBase64));

    let mut short_nonce = good.clone();
    short_nonce.entries = EncryptedBlob { n: b64_encode(&[0u8; 5]), c: good.entries.c.clone() };
    assert_eq!(Vault::open(&short_nonce, "pass").err(), Some(VaultError::NonceLength));
}

#[test]
fn each_seal_uses_a_fresh_nonce() {
    let v = Vault::create("J", "pass").unwrap();
    let a = v.seal(b"[]").unwrap();
    let b = v.seal(b"[]").unwrap();
    assert_ne!(a.entries.n, b.entries.n);
    assert_eq!(Vault::open(&a, "pass").unwrap().1, b"[]".to_vec());
    assert_eq!(Vault::open(&b, "pass").unwrap().1, b"[]".to_vec());
}

#[test]
fn add_entry_prepends() {
    let mut v = vault_with(vec![entry("a", "", "")]);
    v.add_entry(entry("b", "", ""));
    assert_eq!(all_ids(&v), vec!["b", "a"]);
    assert_eq!(v.get_entry("b").unwrap().id, "b");
}

#[test]
fn upsert_replaces_or_prepends() {
    let mut v = vault_with(vec![entry("a", "old", ""), entry("b", "", "")]);
    v._upsert_entry(entry("a", "new", ""));
    assert_eq!(all_ids(&v), vec!["a", "b"]);
    assert_eq!(v.get_entry("a").unwrap().title, "new");
    v._upsert_entry(entry("c", "", ""));
    assert_eq!(all_ids(&v), vec!["c", "a", "b"]);
}

#[test]
fn delete_entry_removes_every_match() {
    let mut v = vault_with(vec![entry("a", "", ""), entry("b", "", ""), entry("a", "", ""), entry("c", "", "")]);
    v.delete_entry("a");
    assert_eq!(all_ids(&v), vec!["b", "c"]);
    assert!(v.get_entry("a").is_none());
    v.delete_entry("zzz");
    assert_eq!(all_ids(&v), vec!["b", "c"]);
}

#[test]
fn get_entry_finds_the_first_match() {
    let v = vault_with(vec![entry("x", "first", ""), entry("x", "second", "")]);
    assert_eq!(v.get_entry("x").unwrap().title, "first");
    assert!(v.get_entry("y").is_none());
}

#[test]
fn get_entry_mut_changes_in_place() {
    let mut v = vault_with(vec![entry("a", "", ""), entry("b", "", "")]);
    {
        let e = v.get_entry_mut("b").unwrap();
        e.title = "edited".to_string();
        e.body = "text".to_string();
    }
    assert_eq!(v.get_entry("b").unwrap().title, "edited");
    assert_eq!(v.get_entry("b").unwrap().body, "text");
    assert!(v.get_entry_mut("nope").is_none());
}

#[test]
fn search_is_case_insensitive_over_title_and_body() {
    let v = vault_with(vec![
        entry("1", "Morning Walk", "sunny"),
        entry("2", "Groceries", "buy MILK and bread"),
        entry("3", "Notes", "nothing here"),
    ]);
    assert_eq!(ids(&v.search("")), vec!["1", "2", "3"]);
    assert_eq!(ids(&v.search("walk")), vec!["1"]);
    assert_eq!(ids(&v.search("milk")), vec!["2"]);
    assert_eq!(ids(&v.search("N")), vec!["1", "2", "3"]);
    assert_eq!(ids(&v.search("xyz")), Vec::<String>::new());
    assert_eq!(ids(&v.search("ÉTÉ")), Vec::<String>::new());
}

#[test]
fn search_handles_non_ascii_case() {
    let v = vault_with(vec![entry("1", "Été à Paris", ""), entry("2", "winter", "")]);
    assert_eq!(ids(&v.search("ÉTÉ")), vec!["1"]);
}

#[test]
fn new_entry_is_blank() {
    let v = vault_with(Vec::new());
    let e = v.new_entry();
    assert!(e.title.is_empty());
    assert!(e.body.is_empty());
    assert_eq!(e.created, e.updated);
    assert!(e.media.is_empty());
    assert!(!e.pinned);
    assert_eq!(e.id.len(), 36);
    for (i, c) in e.id.chars().enumerate() {
        if [8, 13, 18, 23].contains(&i) {
            assert_eq!(c, '-');
        } else {
            assert!(c.is_ascii_hexdigit() && !c.is_ascii_uppercase());
        }
    }
    assert_eq!(e.id.chars().nth(14), Some('4'));
    assert!(matches!(e.id.chars().nth(19), Some('8' | '9' | 'a' | 'b')));
    assert!(e.created.ends_with("+00:00"));
    let f = v.new_entry();
    assert_ne!(e.id, f.id);
}

#[test]
fn blank_entry_uses_the_given_time() {
    let e = Entry::blank("id-1".to_string(), "2024-05-06T07:08:09+00:00".to_string());
    assert_eq!(e.id, "id-1");
    assert_eq!(e.created, "2024-05-06T07:08:09+00:00");
    assert_eq!(e.updated, "2024-05-06T07:08:09+00:00");
}

#[test]
fn remove_media_keeps_the_others() {
    let item = |id: &str| MediaItem {
        id: id.to_string(),
        kind: MediaKind::Image,
        data: String::new(),
        mime: "image/png".to_string(),
    };
    let mut e = entry("e", "t", "b");
    e.media = vec![item("m1"), item("m2"), item("m1"), item("m3")];
    e.remove_media("m1");
    let left: Vec<String> = e.media.iter().map(|m| m.id.clone()).collect();
    assert_eq!(left, vec!["m2", "m3"]);
    assert_eq!(e.title, "t");
}

#[test]
fn vault_file_names() {
    let mut random = [0u8; SALT_LEN];
    random[0] = 0xab;
    random[1] = 0x01;
    random[7] = 0xff;
    random[8] = 0x12;
    assert_eq!(vault_file_name(&random), "ab010000000000ff.vault");
    let name = new_vault_file_name();
    assert_eq!(name.len(), 22);
    assert!(name.ends_with(".vault"));
    assert!(name[..16].chars().all(|c| c.is_ascii_hexdigit() && !c.is_ascii_uppercase()));
}

#[test]
fn search_ignores_case_of_the_query() {
    let v = vault_with(vec![entry("1", "Milk", ""), entry("2", "bread", "MILKY way"), entry("3", "x", "y")]);
    assert_eq!(ids(&v.search("MILK")), ids(&v.search("milk")));
    assert_eq!(ids(&v.search("mIlK")), vec!["1", "2"]);
}

#[test]
fn vault_listing() {
    assert!(is_vault_file(Some("vault")));
    assert!(!is_vault_file(Some("json")));
    assert!(!is_vault_file(Some("Vault")));
    assert!(!is_vault_file(None));
    assert_eq!(listed_vault_name(r#"{"name":"My Journal","salt":"x"}"#), Some("My Journal".to_string()));
    assert_eq!(listed_vault_name(r#"{"name":3}"#), None);
    assert_eq!(listed_vault_name(r#"{"salt":"x"}"#), None);
    assert_eq!(listed_vault_name(r#"["name"]"#), None);
    assert_eq!(listed_vault_name("not json"), None);
}

#[test]
fn attachment_ids_are_uuids() {
    let m = MediaItem::attachment("image/png".to_string(), b"abc");
    assert_eq!(m.id.len(), 36);
    assert_eq!(m.id.chars().nth(14), Some('4'));
}
