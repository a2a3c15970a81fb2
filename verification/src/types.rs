//! The journal's data: entries, their media, and the on-disk vault record.

use vstd::prelude::*;

verus! {

/// One journal entry.
#[derive(Debug, Clone)]
pub struct Entry {
    pub id: String,
    pub title: String,
    pub body: String,
    /// RFC 3339; user-editable for backdating.
    pub created: String,
    /// RFC 3339; refreshed on save.
    pub updated: String,
    pub media: Vec<MediaItem>,
    pub pinned: bool,
}

/// An image or video attached to an entry.
#[derive(Debug, Clone)]
pub struct MediaItem {
    pub id: String,
    pub kind: MediaKind,
    /// Base64-encoded bytes.
    pub data: String,
    pub mime: String,
}

/// The kind of an attachment.
#[derive(Debug, Clone, Copy, PartialEq, Eq, Structural)]
pub enum MediaKind {
    Image,
    Video,
}

/// The encrypted entries of a vault: Base64 nonce and Base64 ciphertext.
#[derive(Debug, Clone)]
pub struct EncryptedBlob {
    pub n: String,
    pub c: String,
}

/// The on-disk vault record (its textual fields; the numeric font settings
/// are carried beside it by the application).
#[derive(Debug, Clone)]
pub struct VaultFile {
    pub name: String,
    /// Base64 scrypt salt.
    pub salt: String,
    pub font_family: String,
    /// CSS weight string: "300", "400", "500", "600", "700".
    pub font_weight: String,
    pub entries: EncryptedBlob,
}

/// The default font family of a vault file that names none.
pub fn default_font() -> (s: String)
    ensures
        s@ == "Georgia, serif"@,
{
    "Georgia, serif".to_owned()
}

/// The default font weight of a vault file that names none.
pub fn default_weight() -> (s: String)
    ensures
        s@ == "400"@,
{
    "400".to_owned()
}

impl Entry {
    /// Removes every attachment whose id is `media_id`, keeping the others in
    /// order.
    pub fn remove_media(&mut self, media_id: &str)
        ensures
            final(self).media@ == old(self).media@.filter(|m: MediaItem| m.id@ != media_id@),
            final(self).id == old(self).id,
            final(self).title == old(self).title,
            final(self).body == old(self).body,
            final(self).created == old(self).created,
            final(self).updated == old(self).updated,
            final(self).pinned == old(self).pinned,
    {
        let target = media_id.to_owned();
        let n = self.media.len();
        let ghost orig = self.media@;
        let ghost pred = |m: MediaItem| m.id@ != media_id@;
        let mut rest: Vec<MediaItem> = Vec::new();
        std::mem::swap(&mut rest, &mut self.media);
        let mut kept: Vec<MediaItem> = Vec::new();
        let mut k: usize = 0;
        while rest.len() > 0
            invariant
                target@ == media_id@,
                pred == (|m: MediaItem| m.id@ != media_id@),
                k <= orig.len(),
                orig.len() == n,
                rest@ == orig.skip(k as int),
                kept@ == orig.take(k as int).filter(pred),
            decreases rest@.len(),
        {
            let m = rest.remove(0);
            proof {
                assert(m == orig[k as int]);
                assert(orig.take(k + 1) =~= orig.take(k as int).push(m));
                orig.take(k as int).lemma_filter_push(m, pred);
            }
            if !(m.id == target) {
                kept.push(m);
            }
            k += 1;
            assert(rest@ =~= orig.skip(k as int));
        }
        assert(orig.take(k as int) =~= orig);
        self.media = kept;
    }
}

} // verus!
