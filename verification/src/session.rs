//! The journal window's state and the decisions taken on its events: which
//! entries are listed, which is being edited, and when the vault must be
//! written back.

use vstd::prelude::*;
use crate::settings::AppSettings;
use crate::types::{Entry, MediaItem};
use crate::vault::{ends_in_utc, entries_of, first_with_id, has_id, is_uuid_v4_text, now_rfc3339, search_spec, without_id, Vault};

verus! {

/// The state of the journal window.
pub struct AppState {
    /// The unlocked journal, if any.
    pub vault: Option<Vault>,
    /// The entry being edited.
    pub current_entry_id: Option<String>,
    pub search_query: String,
    /// Set while the editor is being filled, so that the fill is not taken for
    /// an edit.
    pub suppress_change: bool,
    pub settings: AppSettings,
}

/// The journals have the same name, key, salt and font settings.
pub open spec fn same_vault_settings(ov: Vault, nv: Vault) -> bool {
    &&& nv.name == ov.name
    &&& nv.key == ov.key
    &&& nv.salt == ov.salt
    &&& nv.font_family == ov.font_family
    &&& nv.font_weight == ov.font_weight
}

/// The entries agree on everything but their attachments.
pub open spec fn same_entry_but_media(a: Entry, b: Entry) -> bool {
    &&& b.id == a.id
    &&& b.title == a.title
    &&& b.body == a.body
    &&& b.created == a.created
    &&& b.updated == a.updated
    &&& b.pinned == a.pinned
}

/// The entries agree on everything but their creation time.
pub open spec fn same_entry_but_created(a: Entry, b: Entry) -> bool {
    &&& b.id == a.id
    &&& b.title == a.title
    &&& b.body == a.body
    &&& b.updated == a.updated
    &&& b.media == a.media
    &&& b.pinned == a.pinned
}

/// The search query, the fill guard and the settings are unchanged.
pub open spec fn same_window(a: AppState, b: AppState) -> bool {
    &&& b.search_query == a.search_query
    &&& b.suppress_change == a.suppress_change
    &&& b.settings == a.settings
}

/// `nv` is `ov` with the first entry of id `id`, if there is one, given the
/// title, body and update time of an edit; nothing else changes.
pub open spec fn edited(ov: Vault, nv: Vault, id: Seq<char>, title: String, body: String, now: String) -> bool {
    &&& nv.name == ov.name
    &&& nv.key == ov.key
    &&& nv.salt == ov.salt
    &&& nv.font_family == ov.font_family
    &&& nv.font_weight == ov.font_weight
    &&& (has_id(ov.entries@, id) ==> exists|i: int|
        #[trigger] first_with_id(ov.entries@, id, i)
        && nv.entries@.len() == ov.entries@.len()
        && (forall|j: int| 0 <= j < ov.entries@.len() && j != i ==> nv.entries@[j] == ov.entries@[j])
        && nv.entries@[i].title == title
        && nv.entries@[i].body == body
        && nv.entries@[i].updated == now
        && nv.entries@[i].id == ov.entries@[i].id
        && nv.entries@[i].created == ov.entries@[i].created
        && nv.entries@[i].media == ov.entries@[i].media
        && nv.entries@[i].pinned == ov.entries@[i].pinned)
    &&& (!has_id(ov.entries@, id) ==> nv.entries@ == ov.entries@)
}

impl AppState {
    /// The start-up state: no journal, no entry, empty search.
    pub fn new(settings: AppSettings) -> (st: AppState)
        ensures
            st.vault is None,
            st.current_entry_id is None,
            st.search_query@.len() == 0,
            !st.suppress_change,
            st.settings == settings,
    {
        AppState {
            vault: None,
            current_entry_id: None,
            search_query: String::new(),
            suppress_change: false,
            settings,
        }
    }

    /// A journal was created or unlocked: it becomes the open journal, with no
    /// entry selected.
    pub fn open_vault(&mut self, v: Vault)
        ensures
            final(self).vault == Some(v),
            final(self).current_entry_id is None,
            final(self).search_query == old(self).search_query,
            final(self).suppress_change == old(self).suppress_change,
            final(self).settings == old(self).settings,
    {
        self.vault = Some(v);
        self.current_entry_id = None;
    }

    /// The entries the sidebar lists: those the search query selects, or
    /// `None` when no journal is open.
    pub fn listed_entries(&self) -> (r: Option<Vec<&Entry>>)
        ensures
            match self.vault {
                Some(v) => r matches Some(l) && entries_of(l@) == search_spec(v.entries@, self.search_query@),
                None => r is None,
            },
    {
        match &self.vault {
            Some(v) => Some(v.search(self.search_query.as_str())),
            None => None,
        }
    }

    /// Writes the editor's title and body into the current entry, updated at
    /// `now`. Returns whether the journal must be saved: not while the editor
    /// is being filled, nor without a current entry or an open journal.
    pub fn commit_edit_at(&mut self, title: String, body: String, now: String) -> (save: bool)
        ensures
            save == (!old(self).suppress_change && old(self).current_entry_id is Some && old(self).vault is Some),
            !save ==> final(self).vault == old(self).vault,
            save ==> final(self).vault is Some && edited(
                old(self).vault->0,
                final(self).vault->0,
                old(self).current_entry_id->0@,
                title,
                body,
                now,
            ),
            final(self).current_entry_id == old(self).current_entry_id,
            final(self).search_query == old(self).search_query,
            final(self).suppress_change == old(self).suppress_change,
            final(self).settings == old(self).settings,
    {
        if self.suppress_change {
            return false;
        }
        let id = match &self.current_entry_id {
            Some(id) => id.as_str().to_owned(),
            None => return false,
        };
        match &mut self.vault {
            Some(vault) => {
                match vault.get_entry_mut(id.as_str()) {
                    Some(entry) => {
                        entry.title = title;
                        entry.body = body;
                        entry.updated = now;
                    },
                    None => {},
                }
                true
            },
            None => false,
        }
    }

    /// Writes the editor's title and body into the current entry, updated now.
    /// Returns whether the journal must be saved.
    pub fn commit_edit(&mut self, title: String, body: String) -> (save: bool)
        ensures
            save == (!old(self).suppress_change && old(self).current_entry_id is Some && old(self).vault is Some),
            !save ==> final(self).vault == old(self).vault,
            save ==> final(self).vault is Some && exists|now: String| ends_in_utc(now@) && edited(
                old(self).vault->0,
                final(self).vault->0,
                old(self).current_entry_id->0@,
                title,
                body,
                now,
            ),
            final(self).current_entry_id == old(self).current_entry_id,
            final(self).search_query == old(self).search_query,
            final(self).suppress_change == old(self).suppress_change,
            final(self).settings == old(self).settings,
    {
        let now = now_rfc3339();
        self.commit_edit_at(title, body, now)
    }

    /// Adds a new, empty entry at the top of the open journal and makes it
    /// the current entry. Returns its id, or `None` when no journal is open.
    pub fn add_new_entry(&mut self) -> (id: Option<String>)
        ensures
            match old(self).vault {
                None => id is None && final(self).vault is None
                    && final(self).current_entry_id == old(self).current_entry_id,
                Some(ov) => id matches Some(new_id) && final(self).vault matches Some(nv) && {
                    &&& nv.entries@.len() == ov.entries@.len() + 1
                    &&& nv.entries@.skip(1) == ov.entries@
                    &&& nv.entries@[0].id@ == new_id@
                    &&& is_uuid_v4_text(new_id@)
                    &&& ends_in_utc(nv.entries@[0].created@)
                    &&& nv.entries@[0].title@.len() == 0
                    &&& nv.entries@[0].body@.len() == 0
                    &&& nv.entries@[0].created@ == nv.entries@[0].updated@
                    &&& nv.entries@[0].media@.len() == 0
                    &&& !nv.entries@[0].pinned
                    &&& nv.name == ov.name && nv.key == ov.key && nv.salt == ov.salt
                    &&& nv.font_family == ov.font_family && nv.font_weight == ov.font_weight
                    &&& final(self).current_entry_id matches Some(cur) && cur@ == new_id@
                },
            },
            final(self).search_query == old(self).search_query,
            final(self).suppress_change == old(self).suppress_change,
            final(self).settings == old(self).settings,
    {
        let new_id = match &mut self.vault {
            Some(v) => {
                let e = v.new_entry();
                let new_id = e.id.as_str().to_owned();
                v.add_entry(e);
                assert(v.entries@.skip(1) =~= old(self).vault->0.entries@);
                new_id
            },
            None => return None,
        };
        self.current_entry_id = Some(new_id.as_str().to_owned());
        Some(new_id)
    }

    /// Removes an attachment from an entry of the open journal. Returns
    /// whether the journal must be saved (whenever a journal is open).
    pub fn remove_media(&mut self, entry_id: &str, media_id: &str) -> (save: bool)
        ensures
            save == old(self).vault is Some,
            !save ==> final(self).vault == old(self).vault,
            save ==> final(self).vault is Some && {
                let ov = old(self).vault->0;
                let nv = final(self).vault->0;
                &&& same_vault_settings(ov, nv)
                &&& (has_id(ov.entries@, entry_id@) ==> exists|i: int|
                    #[trigger] first_with_id(ov.entries@, entry_id@, i)
                    && nv.entries@ == ov.entries@.update(i, nv.entries@[i])
                    && nv.entries@[i].media@ == ov.entries@[i].media@.filter(|m: MediaItem| m.id@ != media_id@)
                    && same_entry_but_media(ov.entries@[i], nv.entries@[i]))
                &&& (!has_id(ov.entries@, entry_id@) ==> nv.entries@ == ov.entries@)
            },
            same_window(*old(self), *final(self)),
            final(self).current_entry_id == old(self).current_entry_id,
    {
        match &mut self.vault {
            Some(v) => {
                match v.get_entry_mut(entry_id) {
                    Some(e) => e.remove_media(media_id),
                    None => {},
                }
                true
            },
            None => false,
        }
    }

    /// Home: the open journal is closed (locked), and no entry is current.
    pub fn close_vault(&mut self)
        ensures
            final(self).vault is None,
            final(self).current_entry_id is None,
            same_window(*old(self), *final(self)),
    {
        self.vault = None;
        self.current_entry_id = None;
    }
}

impl AppState {
    /// Attaches `item` to the current entry of the open journal. Returns
    /// whether the journal must be saved (whenever a journal is open and an
    /// entry is current).
    pub fn attach_media(&mut self, item: MediaItem) -> (save: bool)
        ensures
            save == (old(self).current_entry_id is Some && old(self).vault is Some),
            !save ==> final(self).vault == old(self).vault,
            save ==> final(self).vault is Some && {
                let ov = old(self).vault->0;
                let nv = final(self).vault->0;
                let id = old(self).current_entry_id->0@;
                &&& same_vault_settings(ov, nv)
                &&& (has_id(ov.entries@, id) ==> exists|i: int|
                    #[trigger] first_with_id(ov.entries@, id, i)
                    && nv.entries@ == ov.entries@.update(i, nv.entries@[i])
                    && nv.entries@[i].media@ == ov.entries@[i].media@.push(item)
                    && same_entry_but_media(ov.entries@[i], nv.entries@[i]))
                &&& (!has_id(ov.entries@, id) ==> nv.entries@ == ov.entries@)
            },
            same_window(*old(self), *final(self)),
            final(self).current_entry_id == old(self).current_entry_id,
    {
        let id = match &self.current_entry_id {
            Some(id) => id.as_str().to_owned(),
            None => return false,
        };
        match &mut self.vault {
            Some(v) => {
                match v.get_entry_mut(id.as_str()) {
                    Some(e) => e.media.push(item),
                    None => {},
                }
                true
            },
            None => false,
        }
    }

    /// Deletes the current entry, which stops being current. Returns whether
    /// the journal must be saved (whenever an entry was current and a journal
    /// is open).
    pub fn delete_current_entry(&mut self) -> (save: bool)
        ensures
            final(self).current_entry_id is None,
            save == (old(self).current_entry_id is Some && old(self).vault is Some),
            !save ==> final(self).vault == old(self).vault,
            save ==> final(self).vault is Some
                && final(self).vault->0.entries@ == without_id(old(self).vault->0.entries@, old(self).current_entry_id->0@)
                && same_vault_settings(old(self).vault->0, final(self).vault->0),
            same_window(*old(self), *final(self)),
    {
        let id = match self.current_entry_id.take() {
            Some(id) => id,
            None => return false,
        };
        match &mut self.vault {
            Some(v) => {
                v.delete_entry(id.as_str());
                true
            },
            None => false,
        }
    }

    /// Backdates the entry `id` to the creation time `stamp`. Returns whether
    /// the journal must be saved (whenever a journal is open).
    pub fn set_created(&mut self, id: &str, stamp: String) -> (save: bool)
        ensures
            save == old(self).vault is Some,
            !save ==> final(self).vault == old(self).vault,
            save ==> final(self).vault is Some && {
                let ov = old(self).vault->0;
                let nv = final(self).vault->0;
                &&& same_vault_settings(ov, nv)
                &&& (has_id(ov.entries@, id@) ==> exists|i: int|
                    #[trigger] first_with_id(ov.entries@, id@, i)
                    && nv.entries@ == ov.entries@.update(i, nv.entries@[i])
                    && nv.entries@[i].created == stamp
                    && same_entry_but_created(ov.entries@[i], nv.entries@[i]))
                &&& (!has_id(ov.entries@, id@) ==> nv.entries@ == ov.entries@)
            },
            same_window(*old(self), *final(self)),
            final(self).current_entry_id == old(self).current_entry_id,
    {
        match &mut self.vault {
            Some(v) => {
                match v.get_entry_mut(id) {
                    Some(e) => e.created = stamp,
                    None => {},
                }
                true
            },
            None => false,
        }
    }

    /// Sets the open journal's font family and weight. Returns whether the
    /// journal must be saved (whenever a journal is open).
    pub fn set_font(&mut self, family: String, weight: String) -> (save: bool)
        ensures
            save == old(self).vault is Some,
            !save ==> final(self).vault == old(self).vault,
            save ==> final(self).vault is Some && {
                let ov = old(self).vault->0;
                let nv = final(self).vault->0;
                &&& nv.font_family == family
                &&& nv.font_weight == weight
                &&& nv.entries == ov.entries && nv.name == ov.name && nv.key == ov.key && nv.salt == ov.salt
            },
            same_window(*old(self), *final(self)),
            final(self).current_entry_id == old(self).current_entry_id,
    {
        match &mut self.vault {
            Some(v) => {
                v.font_family = family;
                v.font_weight = weight;
                true
            },
            None => false,
        }
    }
}

} // verus!
