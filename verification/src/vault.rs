//! A journal vault: its key, salt and entries, and the sealing of the entries
//! into the on-disk record and their recovery from it.

use vstd::prelude::*;
use vstd::string::*;
use crate::crypto::{
    aes256_gcm_open, aes256_gcm_seal, b64_decode, b64_encode, base64_decoding, base64_encoding,
    decrypt, derive_key, derived_key, encrypt, gen_salt, VaultError, KEY_LEN, NONCE_LEN, P_MAX,
    SALT_LEN,
};
use crate::types::{EncryptedBlob, Entry, MediaItem, MediaKind, VaultFile};

verus! {

/// An unlocked journal.
pub struct Vault {
    pub name: String,
    pub key: [u8; KEY_LEN],
    pub salt: [u8; SALT_LEN],
    /// Newest first.
    pub entries: Vec<Entry>,
    pub font_family: String,
    pub font_weight: String,
}

/// What decrypting a stored blob under `key` gives: the Base64 nonce and
/// ciphertext are decoded, the nonce must have `NONCE_LEN` bytes, and AES-GCM
/// must authenticate.
pub open spec fn decrypt_blob_spec(key: Seq<u8>, nonce_text: Seq<char>, ct_text: Seq<char>) -> Result<Seq<u8>, VaultError> {
    match base64_decoding(nonce_text) {
        None => Err(VaultError::InvalidBase64),
        Some(nonce) => match base64_decoding(ct_text) {
            None => Err(VaultError::InvalidBase64),
            Some(ct) => if nonce.len() != NONCE_LEN {
                Err(VaultError::NonceLength)
            } else {
                match aes256_gcm_open(key, nonce, ct) {
                    Some(p) => Ok(p),
                    None => Err(VaultError::Decrypt),
                }
            },
        },
    }
}

/// What opening a vault record with a passphrase gives: (key, salt, decrypted
/// entries), or the first error met. The salt is decoded and must have
/// `SALT_LEN` bytes; the key is derived from the passphrase and the salt.
pub open spec fn open_spec(file: VaultFile, passphrase: Seq<char>) -> Result<(Seq<u8>, Seq<u8>, Seq<u8>), VaultError> {
    match base64_decoding(file.salt@) {
        None => Err(VaultError::InvalidBase64),
        Some(salt) => if salt.len() != SALT_LEN {
            Err(VaultError::SaltLength)
        } else {
            let key = derived_key(passphrase, salt);
            match decrypt_blob_spec(key, file.entries.n@, file.entries.c@) {
                Ok(p) => Ok((key, salt, p)),
                Err(e) => Err(e),
            }
        },
    }
}

/// `file` is a record of `v` holding `plaintext`: it carries the vault's name
/// and font settings, the Base64 salt, and the Base64 nonce and AES-GCM
/// ciphertext of `plaintext` under the vault's key; and it decodes and
/// decrypts back to the salt and `plaintext`.
pub open spec fn sealed_file(v: Vault, plaintext: Seq<u8>, file: VaultFile) -> bool {
    &&& file.name@ == v.name@
    &&& file.font_family@ == v.font_family@
    &&& file.font_weight@ == v.font_weight@
    &&& file.salt@ == base64_encoding(v.salt@)
    &&& exists|nonce: Seq<u8>|
        #![trigger aes256_gcm_seal(v.key@, nonce, plaintext)]
        nonce.len() == NONCE_LEN
        && file.entries.n@ == base64_encoding(nonce)
        && file.entries.c@ == base64_encoding(aes256_gcm_seal(v.key@, nonce, plaintext))
    &&& base64_decoding(file.salt@) == Some(v.salt@)
    &&& decrypt_blob_spec(v.key@, file.entries.n@, file.entries.c@) == Ok::<Seq<u8>, VaultError>(plaintext)
}

impl Vault {
    /// The vault's key is the one derived from `passphrase` and its salt.
    pub open spec fn unlocks_with(&self, passphrase: Seq<char>) -> bool {
        self.key@ == derived_key(passphrase, self.salt@)
    }

    /// Creates a new, empty vault named `name` under a fresh salt, keyed by
    /// `passphrase`.
    pub fn create(name: &str, passphrase: &str) -> (res: Result<Vault, VaultError>)
        ensures
            res matches Ok(v) && {
                &&& v.name@ == name@
                &&& v.unlocks_with(passphrase@)
                &&& v.entries@.len() == 0
                &&& v.font_family@ == "Georgia, serif"@
                &&& v.font_weight@ == "400"@
            },
    {
        let salt = gen_salt();
        let key = match derive_key(passphrase, &salt) {
            Ok(k) => k,
            Err(e) => return Err(e),
        };
        Ok(Vault {
            name: name.to_owned(),
            key,
            salt,
            entries: Vec::new(),
            font_family: crate::types::default_font(),
            font_weight: crate::types::default_weight(),
        })
    }

    /// Opens a vault record with `passphrase`: derives the key from the stored
    /// salt and decrypts the entries. Returns the vault, with no entries yet,
    /// and the decrypted entries (JSON bytes) for the caller to parse.
    pub fn open(file: &VaultFile, passphrase: &str) -> (res: Result<(Vault, Vec<u8>), VaultError>)
        ensures
            match open_spec(*file, passphrase@) {
                Ok((key, salt, plain)) => res matches Ok((v, p)) && {
                    &&& v.key@ == key
                    &&& v.salt@ == salt
                    &&& p@ == plain
                    &&& v.unlocks_with(passphrase@)
                    &&& v.name@ == file.name@
                    &&& v.font_family@ == file.font_family@
                    &&& v.font_weight@ == file.font_weight@
                    &&& v.entries@.len() == 0
                },
                Err(e) => res == Err::<(Vault, Vec<u8>), VaultError>(e),
            },
    {
        let salt_vec = match b64_decode(file.salt.as_str()) {
            Ok(s) => s,
            Err(e) => return Err(e),
        };
        if salt_vec.len() != SALT_LEN {
            return Err(VaultError::SaltLength);
        }
        let salt = salt_array(&salt_vec);
        let key = match derive_key(passphrase, &salt) {
            Ok(k) => k,
            Err(e) => return Err(e),
        };
        let plain = match decrypt_blob(&key, &file.entries) {
            Ok(p) => p,
            Err(e) => return Err(e),
        };
        let v = Vault {
            name: copy_string(&file.name),
            key,
            salt,
            entries: Vec::new(),
            font_family: copy_string(&file.font_family),
            font_weight: copy_string(&file.font_weight),
        };
        Ok((v, plain))
    }

    /// Encrypts `plaintext` (the serialized entries) under the vault's key and
    /// a fresh nonce, and builds the vault's on-disk record.
    pub fn seal(&self, plaintext: &[u8]) -> (res: Result<VaultFile, VaultError>)
        requires
            (plaintext@.len() + 16) / 3 * 4 + 4 <= usize::MAX,
        ensures
            res is Ok <==> plaintext@.len() <= P_MAX,
            res is Err ==> res == Err::<VaultFile, VaultError>(VaultError::Encrypt),
            res matches Ok(file) ==> sealed_file(*self, plaintext@, file),
    {
        let (ct, nonce) = match encrypt(&self.key, plaintext) {
            Ok(r) => r,
            Err(e) => return Err(e),
        };
        let n = b64_encode(&nonce);
        let c = b64_encode(ct.as_slice());
        let salt = b64_encode(&self.salt);
        let file = VaultFile {
            name: copy_string(&self.name),
            salt,
            font_family: copy_string(&self.font_family),
            font_weight: copy_string(&self.font_weight),
            entries: EncryptedBlob { n, c },
        };
        assert(file.entries.c@ == base64_encoding(aes256_gcm_seal(self.key@, nonce@, plaintext@)));
        Ok(file)
    }
}

/// Opening a record that sealed `plaintext` with the passphrase the vault was
/// keyed by gives back the vault's key and salt and exactly `plaintext`.
pub proof fn lemma_open_reads_back_seal(v: Vault, passphrase: Seq<char>, plaintext: Seq<u8>, file: VaultFile)
    requires
        v.unlocks_with(passphrase),
        sealed_file(v, plaintext, file),
    ensures
        open_spec(file, passphrase) == Ok::<(Seq<u8>, Seq<u8>, Seq<u8>), VaultError>((v.key@, v.salt@, plaintext)),
{
}

/// A copy of a string.
fn copy_string(s: &String) -> (r: String)
    ensures
        r@ == s@,
{
    s.as_str().to_owned()
}

/// The salt held in a vector of `SALT_LEN` bytes.
fn salt_array(v: &Vec<u8>) -> (a: [u8; SALT_LEN])
    requires
        v@.len() == SALT_LEN,
    ensures
        a@ == v@,
{
    let mut a = [0u8; SALT_LEN];
    for i in 0..SALT_LEN
        invariant
            v@.len() == SALT_LEN,
            forall|j: int| 0 <= j < i ==> a@[j] == v@[j],
    {
        a.set(i, v[i]);
    }
    assert(a@ =~= v@);
    a
}

/// Decodes and decrypts a stored blob under `key`.
fn decrypt_blob(key: &[u8; KEY_LEN], blob: &EncryptedBlob) -> (res: Result<Vec<u8>, VaultError>)
    ensures
        match decrypt_blob_spec(key@, blob.n@, blob.c@) {
            Ok(p) => res matches Ok(q) && q@ == p,
            Err(e) => res == Err::<Vec<u8>, VaultError>(e),
        },
{
    let nonce = match b64_decode(blob.n.as_str()) {
        Ok(n) => n,
        Err(e) => return Err(e),
    };
    let ct = match b64_decode(blob.c.as_str()) {
        Ok(c) => c,
        Err(e) => return Err(e),
    };
    if nonce.len() != NONCE_LEN {
        return Err(VaultError::NonceLength);
    }
    decrypt(key, nonce.as_slice(), ct.as_slice())
}

/// The entries that a sequence of references points to.
pub open spec fn entries_of(refs: Seq<&Entry>) -> Seq<Entry> {
    Seq::new(refs.len(), |j: int| *refs[j])
}

/// `i` is the position of the first entry whose id is `id`.
pub open spec fn first_with_id(entries: Seq<Entry>, id: Seq<char>, i: int) -> bool {
    &&& 0 <= i < entries.len()
    &&& entries[i].id@ == id
    &&& forall|j: int| 0 <= j < i ==> #[trigger] entries[j].id@ != id
}

/// Some entry has the id `id`.
pub open spec fn has_id(entries: Seq<Entry>, id: Seq<char>) -> bool {
    exists|i: int| 0 <= i < entries.len() && #[trigger] entries[i].id@ == id
}

/// An entry matches a lowercased, non-empty query when its lowercased title
/// or its lowercased body contains the query.
pub open spec fn entry_matches(e: Entry, query_lower: Seq<char>) -> bool {
    crate::text::is_substring(query_lower, crate::text::lowercase(e.title@))
        || crate::text::is_substring(query_lower, crate::text::lowercase(e.body@))
}

/// The entries that a search for `query` lists, in the vault's order: all of
/// them for an empty query, else those matching it case-insensitively.
pub open spec fn search_spec(entries: Seq<Entry>, query: Seq<char>) -> Seq<Entry> {
    if query.len() == 0 {
        entries
    } else {
        entries.filter(|e: Entry| entry_matches(e, crate::text::lowercase(query)))
    }
}

/// The entries left after deleting every entry whose id is `id`.
pub open spec fn without_id(entries: Seq<Entry>, id: Seq<char>) -> Seq<Entry> {
    entries.filter(other_id(id))
}

/// The test that an entry's id is not `id`.
pub open spec fn other_id(id: Seq<char>) -> spec_fn(Entry) -> bool {
    |e: Entry| e.id@ != id
}

impl Vault {
    /// The position of the first entry whose id is `id`.
    fn find_index(&self, id: &str) -> (r: Option<usize>)
        ensures
            match r {
                Some(i) => first_with_id(self.entries@, id@, i as int),
                None => !has_id(self.entries@, id@),
            },
    {
        let target = id.to_owned();
        let n = self.entries.len();
        let mut i: usize = 0;
        while i < n
            invariant
                n == self.entries@.len(),
                target@ == id@,
                i <= n,
                forall|j: int| 0 <= j < i ==> #[trigger] self.entries@[j].id@ != id@,
            decreases n - i,
        {
            if self.entries[i].id == target {
                return Some(i);
            }
            i += 1;
        }
        None
    }

    /// Prepends the entry (newest first).
    pub fn add_entry(&mut self, entry: Entry)
        ensures
            final(self).entries@ == seq![entry] + old(self).entries@,
            final(self).name == old(self).name,
            final(self).key == old(self).key,
            final(self).salt == old(self).salt,
            final(self).font_family == old(self).font_family,
            final(self).font_weight == old(self).font_weight,
    {
        self.entries.insert(0, entry);
        assert(self.entries@ =~= seq![entry] + old(self).entries@);
    }

    /// Replaces the first entry with the same id, or prepends the entry when
    /// no entry has its id.
    pub fn _upsert_entry(&mut self, entry: Entry)
        ensures
            has_id(old(self).entries@, entry.id@) ==> exists|i: int|
                first_with_id(old(self).entries@, entry.id@, i)
                && final(self).entries@ == old(self).entries@.update(i, entry),
            !has_id(old(self).entries@, entry.id@) ==> final(self).entries@ == seq![entry] + old(self).entries@,
            final(self).name == old(self).name,
            final(self).key == old(self).key,
            final(self).salt == old(self).salt,
            final(self).font_family == old(self).font_family,
            final(self).font_weight == old(self).font_weight,
    {
        match self.find_index(entry.id.as_str()) {
            Some(i) => {
                self.entries.set(i, entry);
            },
            None => {
                self.entries.insert(0, entry);
                assert(self.entries@ =~= seq![entry] + old(self).entries@);
            },
        }
    }

    /// Deletes every entry whose id is `id`, keeping the others in order.
    pub fn delete_entry(&mut self, id: &str)
        ensures
            final(self).entries@ == without_id(old(self).entries@, id@),
            final(self).name == old(self).name,
            final(self).key == old(self).key,
            final(self).salt == old(self).salt,
            final(self).font_family == old(self).font_family,
            final(self).font_weight == old(self).font_weight,
    {
        let target = id.to_owned();
        let n = self.entries.len();
        let ghost orig = self.entries@;
        let ghost pred = other_id(id@);
        let mut rest: Vec<Entry> = Vec::new();
        std::mem::swap(&mut rest, &mut self.entries);
        let mut kept: Vec<Entry> = Vec::new();
        let mut k: usize = 0;
        while rest.len() > 0
            invariant
                target@ == id@,
                pred == other_id(id@),
                k <= orig.len(),
                orig.len() == n,
                rest@ == orig.skip(k as int),
                kept@ == orig.take(k as int).filter(pred),
            decreases rest@.len(),
        {
            let e = rest.remove(0);
            proof {
                assert(e == orig[k as int]);
                assert(orig.take(k + 1) =~= orig.take(k as int).push(e));
                orig.take(k as int).lemma_filter_push(e, pred);
            }
            if !(e.id == target) {
                kept.push(e);
            }
            k += 1;
            assert(rest@ =~= orig.skip(k as int));
        }
        assert(orig.take(k as int) =~= orig);
        self.entries = kept;
    }

    /// The first entry whose id is `id`.
    pub fn get_entry(&self, id: &str) -> (r: Option<&Entry>)
        ensures
            match r {
                Some(e) => exists|i: int| first_with_id(self.entries@, id@, i) && *e == self.entries@[i],
                None => !has_id(self.entries@, id@),
            },
    {
        match self.find_index(id) {
            Some(i) => Some(&self.entries[i]),
            None => None,
        }
    }

    /// The first entry whose id is `id`, to be changed in place.
    pub fn get_entry_mut(&mut self, id: &str) -> (r: Option<&mut Entry>)
        ensures
            match r {
                Some(e) => exists|i: int|
                    first_with_id(old(self).entries@, id@, i)
                    && *e == old(self).entries@[i]
                    && final(self).entries@ == old(self).entries@.update(i, *final(e)),
                None => !has_id(old(self).entries@, id@) && final(self).entries@ == old(self).entries@,
            },
            final(self).name == old(self).name,
            final(self).key == old(self).key,
            final(self).salt == old(self).salt,
            final(self).font_family == old(self).font_family,
            final(self).font_weight == old(self).font_weight,
    {
        match self.find_index(id) {
            Some(i) => Some(&mut self.entries[i]),
            None => None,
        }
    }

    /// Returns the entries matching the query (case-insensitive title + body
    /// search), in the vault's order; all entries for an empty query.
    pub fn search<'a>(&'a self, query: &str) -> (r: Vec<&'a Entry>)
        ensures
            entries_of(r@) == search_spec(self.entries@, query@),
    {
        let n = self.entries.len();
        let mut out: Vec<&'a Entry> = Vec::new();
        if query.is_empty() {
            let mut i: usize = 0;
            while i < n
                invariant
                    n == self.entries@.len(),
                    i <= n,
                    out@.len() == i,
                    entries_of(out@) == self.entries@.take(i as int),
                decreases n - i,
            {
                let e = &self.entries[i];
                let ghost prev = out@;
                out.push(e);
                assert forall|j: int| 0 <= j < i + 1 implies #[trigger] entries_of(out@)[j] == self.entries@.take(i + 1)[j] by {
                    if j < i {
                        assert(entries_of(prev)[j] == self.entries@.take(i as int)[j]);
                    }
                }
                i += 1;
                assert(entries_of(out@) =~= self.entries@.take(i as int));
            }
            assert(self.entries@.take(n as int) =~= self.entries@);
            return out;
        }
        let q = crate::text::to_lowercase(query);
        let ghost pred = |e: Entry| entry_matches(e, crate::text::lowercase(query@));
        let mut i: usize = 0;
        while i < n
            invariant
                n == self.entries@.len(),
                i <= n,
                q@ == crate::text::lowercase(query@),
                pred == (|e: Entry| entry_matches(e, crate::text::lowercase(query@))),
                entries_of(out@) == self.entries@.take(i as int).filter(pred),
            decreases n - i,
        {
            let e = &self.entries[i];
            proof {
                assert(self.entries@.take(i + 1) =~= self.entries@.take(i as int).push(*e));
                self.entries@.take(i as int).lemma_filter_push(*e, pred);
            }
            let title = crate::text::to_lowercase(e.title.as_str());
            let body = crate::text::to_lowercase(e.body.as_str());
            let hit = crate::text::contains(title.as_str(), q.as_str())
                || crate::text::contains(body.as_str(), q.as_str());
            if hit {
                out.push(e);
            }
            i += 1;
            assert(entries_of(out@) =~= self.entries@.take(i as int).filter(pred));
        }
        assert(self.entries@.take(n as int) =~= self.entries@);
        out
    }
}

// ─── new entries ───────────────────────────────────────────────────────────

/// `c` is a lowercase hexadecimal digit.
pub open spec fn is_lower_hex(c: char) -> bool {
    ('0' <= c <= '9') || ('a' <= c <= 'f')
}

/// `s` is the hyphenated, lowercase text of a version-4 (random) UUID:
/// 36 characters, hyphens at 8, 13, 18 and 23, hexadecimal digits elsewhere,
/// the version digit '4' at 14 and a variant digit 8, 9, a or b at 19.
pub open spec fn is_uuid_v4_text(s: Seq<char>) -> bool {
    &&& s.len() == 36
    &&& forall|i: int| 0 <= i < 36 ==> (if i == 8 || i == 13 || i == 18 || i == 23 {
        #[trigger] s[i] == '-'
    } else {
        is_lower_hex(s[i])
    })
    &&& s[14] == '4'
    &&& (s[19] == '8' || s[19] == '9' || s[19] == 'a' || s[19] == 'b')
}

/// `s` ends with the UTC offset "+00:00".
pub open spec fn ends_in_utc(s: Seq<char>) -> bool {
    s.len() >= 6 && s.subrange(s.len() - 6, s.len() as int) == "+00:00"@
}

/// Calls `uuid::Uuid::new_v4` and formats the id with `to_string`. The id is
/// random; its source sets the version bits to 4 and the variant bits to
/// 10, and `to_string` writes the hyphenated lowercase form.
#[verifier::external_body]
fn new_uuid() -> (s: String)
    ensures
        is_uuid_v4_text(s@),
{
    uuid::Uuid::new_v4().to_string()
}

/// Calls `chrono::Utc::now` and formats the time with `to_rfc3339`. The time
/// depends on the clock and is not stated; its source writes the offset of
/// UTC as "+00:00" at the end. (`Utc::now` panics when the system clock is set
/// before 1970, which no precondition can rule out.)
#[verifier::external_body]
pub(crate) fn now_rfc3339() -> (s: String)
    ensures
        ends_in_utc(s@),
{
    chrono::Utc::now().to_rfc3339()
}

impl Entry {
    /// An empty, unpinned entry with the given id, created and updated at `now`.
    pub fn blank(id: String, now: String) -> (e: Entry)
        ensures
            e.id == id,
            e.title@.len() == 0,
            e.body@.len() == 0,
            e.created@ == now@,
            e.updated@ == now@,
            e.media@.len() == 0,
            !e.pinned,
    {
        let updated = copy_string(&now);
        Entry {
            id,
            title: String::new(),
            body: String::new(),
            created: now,
            updated,
            media: Vec::new(),
            pinned: false,
        }
    }
}

impl Vault {
    /// A new, empty entry with a fresh random id (a version-4 UUID), created
    /// and updated now (an RFC 3339 time in UTC).
    pub fn new_entry(&self) -> (e: Entry)
        ensures
            is_uuid_v4_text(e.id@),
            ends_in_utc(e.created@),
            e.title@.len() == 0,
            e.body@.len() == 0,
            e.created@ == e.updated@,
            e.media@.len() == 0,
            !e.pinned,
    {
        let now = now_rfc3339();
        Entry::blank(new_uuid(), now)
    }
}

// ─── vault file names ──────────────────────────────────────────────────────

/// The lowercase hexadecimal digit for a value below 16.
pub open spec fn hex_digit(n: int) -> char {
    if n < 10 {
        (n + 48) as char
    } else {
        (n + 87) as char
    }
}

/// Lowercase hexadecimal text of some bytes, two digits per byte.
pub open spec fn hex_lower(data: Seq<u8>) -> Seq<char>
    decreases data.len(),
{
    if data.len() == 0 {
        Seq::empty()
    } else {
        seq![hex_digit(data[0] as int / 16), hex_digit(data[0] as int % 16)] + hex_lower(data.skip(1))
    }
}

/// Hexadecimal text has two digits per byte.
pub proof fn lemma_hex_lower_len(data: Seq<u8>)
    ensures
        hex_lower(data).len() == 2 * data.len(),
    decreases data.len(),
{
    if data.len() > 0 {
        lemma_hex_lower_len(data.skip(1));
    }
}

/// Calls `hex::encode`, which writes each byte as two lowercase hexadecimal
/// digits, high digit first.
#[verifier::external_body]
fn hex_encode(data: &[u8]) -> (s: String)
    ensures
        s@ == hex_lower(data@),
{
    hex::encode(data)
}

/// The file name of a vault: the first 16 hexadecimal digits of `random`,
/// then ".vault".
pub open spec fn vault_file_name_spec(random: Seq<u8>) -> Seq<char> {
    hex_lower(random).take(16) + ".vault"@
}

/// The file name for a new vault drawn from the random bytes `random`.
pub fn vault_file_name(random: &[u8; SALT_LEN]) -> (s: String)
    ensures
        s@ == vault_file_name_spec(random@),
{
    let hex = hex_encode(random);
    proof {
        lemma_hex_lower_len(random@);
    }
    let digits = crate::text::chars_of(hex.as_str());
    let mut name = crate::text::string_from_chars(&digits, 0, 16);
    name.append(".vault");
    name
}

/// A unique file name for a new vault, drawn from fresh random bytes.
pub fn new_vault_file_name() -> (s: String)
    ensures
        exists|random: Seq<u8>| random.len() == SALT_LEN && s@ == vault_file_name_spec(random),
{
    let random = gen_salt();
    vault_file_name(&random)
}

// ─── laws of the entry list ────────────────────────────────────────────────

/// After `add_entry(e)`, looking up `e`'s id finds `e` at the front.
pub proof fn lemma_added_entry_is_found(entries: Seq<Entry>, e: Entry)
    ensures
        first_with_id(seq![e] + entries, e.id@, 0),
        (seq![e] + entries)[0] == e,
{
}

/// After `_upsert_entry(e)`, looking up `e`'s id finds `e`, whether it
/// replaced an entry or was prepended.
pub proof fn lemma_upserted_entry_is_found(old_entries: Seq<Entry>, new_entries: Seq<Entry>, e: Entry)
    requires
        has_id(old_entries, e.id@) ==> exists|i: int|
            first_with_id(old_entries, e.id@, i) && new_entries == old_entries.update(i, e),
        !has_id(old_entries, e.id@) ==> new_entries == seq![e] + old_entries,
    ensures
        exists|i: int| first_with_id(new_entries, e.id@, i) && new_entries[i] == e,
{
    if has_id(old_entries, e.id@) {
        let i = choose|i: int| first_with_id(old_entries, e.id@, i) && new_entries == old_entries.update(i, e);
        assert(first_with_id(new_entries, e.id@, i));
    } else {
        assert(first_with_id(new_entries, e.id@, 0));
    }
}

/// After `delete_entry(id)` no entry has the id `id`, and an entry is kept
/// exactly when it was there and has another id.
pub proof fn lemma_deleted_id_is_gone(entries: Seq<Entry>, id: Seq<char>)
    ensures
        !has_id(without_id(entries, id), id),
        forall|e: Entry| #[trigger] without_id(entries, id).contains(e) <==> (entries.contains(e) && e.id@ != id),
{
    broadcast use vstd::seq_lib::group_filter_ensures;
    let pred = other_id(id);
    let kept = entries.filter(pred);
    assert forall|e: Entry| #[trigger] kept.contains(e) <==> (entries.contains(e) && e.id@ != id) by {
        if kept.contains(e) {
            entries.lemma_filter_contains_rev(pred, e);
            let i = choose|i: int| 0 <= i < kept.len() && kept[i] == e;
            assert(pred(kept[i]));
        }
        if entries.contains(e) && pred(e) {
            let i = choose|i: int| 0 <= i < entries.len() && entries[i] == e;
            assert(kept.contains(entries[i]));
        }
    }
    if has_id(kept, id) {
        let i = choose|i: int| 0 <= i < kept.len() && #[trigger] kept[i].id@ == id;
        assert(pred(kept[i]));
    }
}

/// Every entry that a search lists is in the vault, and matches the query
/// when the query is not empty.
pub proof fn lemma_search_results_match(entries: Seq<Entry>, query: Seq<char>)
    ensures
        forall|e: Entry| #[trigger] search_spec(entries, query).contains(e) ==> entries.contains(e),
        query.len() > 0 ==> forall|e: Entry| #[trigger] search_spec(entries, query).contains(e)
            ==> entry_matches(e, crate::text::lowercase(query)),
        query.len() == 0 ==> search_spec(entries, query) == entries,
{
    broadcast use vstd::seq_lib::group_filter_ensures;
    if query.len() > 0 {
        let pred = |e: Entry| entry_matches(e, crate::text::lowercase(query));
        assert forall|e: Entry| #[trigger] search_spec(entries, query).contains(e) implies
            entries.contains(e) && entry_matches(e, crate::text::lowercase(query)) by {
            entries.lemma_filter_contains_rev(pred, e);
            let i = choose|i: int| 0 <= i < entries.filter(pred).len() && entries.filter(pred)[i] == e;
            assert(pred(entries.filter(pred)[i]));
        }
    }
}

/// The number of entries that match a lowercase query.
pub open spec fn match_count(entries: Seq<Entry>, query_lower: Seq<char>) -> nat
    decreases entries.len(),
{
    if entries.len() == 0 {
        0
    } else {
        match_count(entries.drop_last(), query_lower)
            + (if entry_matches(entries.last(), query_lower) { 1nat } else { 0nat })
    }
}

/// Keeping the entries that match a lowercase query keeps as many entries
/// as match it.
proof fn lemma_filter_count(entries: Seq<Entry>, query_lower: Seq<char>)
    ensures
        entries.filter(|e: Entry| entry_matches(e, query_lower)).len() == match_count(entries, query_lower),
    decreases entries.len(),
{
    reveal(Seq::filter);
    if entries.len() > 0 {
        lemma_filter_count(entries.drop_last(), query_lower);
    }
}

/// Whether `x` stands before `y` among `entries`.
pub open spec fn stands_before(entries: Seq<Entry>, x: Entry, y: Entry) -> bool {
    exists|i: int, j: int| 0 <= i < j < entries.len() && entries[i] == x && entries[j] == y
}

/// Keeping the elements that satisfy a test keeps them in order: of two
/// kept elements, the earlier one stands earlier in the whole sequence.
proof fn lemma_filter_order(entries: Seq<Entry>, pred: spec_fn(Entry) -> bool)
    ensures
        forall|a: int, b: int| 0 <= a < b < entries.filter(pred).len()
            ==> stands_before(entries, #[trigger] entries.filter(pred)[a], #[trigger] entries.filter(pred)[b]),
    decreases entries.len(),
{
    reveal(Seq::filter);
    broadcast use vstd::seq_lib::group_filter_ensures;
    if entries.len() > 0 {
        let init = entries.drop_last();
        lemma_filter_order(init, pred);
        let f0 = init.filter(pred);
        let f = entries.filter(pred);
        assert forall|a: int, b: int| 0 <= a < b < f.len()
            implies stands_before(entries, #[trigger] f[a], #[trigger] f[b]) by {
            if b < f0.len() {
                assert(f[a] == f0[a] && f[b] == f0[b]);
                assert(stands_before(init, f0[a], f0[b]));
                let (i, j) = choose|i: int, j: int| 0 <= i < j < init.len() && init[i] == f0[a] && init[j] == f0[b];
                assert(entries[i] == init[i] && entries[j] == init[j]);
                assert(0 <= i < j < entries.len() && entries[i] == f[a] && entries[j] == f[b]);
            } else {
                assert(f == f0.push(entries.last()));
                assert(f[a] == f0[a]);
                assert(f0.contains(f0[a]));
                init.lemma_filter_contains_rev(pred, f0[a]);
                let i = choose|i: int| 0 <= i < init.len() && init[i] == f0[a];
                assert(entries[i] == init[i]);
                let j = entries.len() - 1;
                assert(b == f0.len());
                assert(entries[j] == f[b]);
                assert(0 <= i < j < entries.len() && entries[i] == f[a] && entries[j] == f[b]);
            }
        }
    }
}

/// Search is complete: for a non-empty query, every entry of the vault
/// that matches it is listed, exactly as many entries are listed as match
/// it, and they are listed in the vault's order.
pub proof fn lemma_search_complete(entries: Seq<Entry>, query: Seq<char>)
    requires
        query.len() > 0,
    ensures
        forall|i: int| 0 <= i < entries.len() && entry_matches(entries[i], crate::text::lowercase(query))
            ==> #[trigger] search_spec(entries, query).contains(entries[i]),
        search_spec(entries, query).len() == match_count(entries, crate::text::lowercase(query)),
        forall|a: int, b: int| 0 <= a < b < search_spec(entries, query).len()
            ==> stands_before(entries, #[trigger] search_spec(entries, query)[a], #[trigger] search_spec(entries, query)[b]),
{
    broadcast use vstd::seq_lib::group_filter_ensures;
    let q = crate::text::lowercase(query);
    let pred = |e: Entry| entry_matches(e, q);
    assert forall|i: int| 0 <= i < entries.len() && entry_matches(entries[i], q)
        implies #[trigger] search_spec(entries, query).contains(entries[i]) by {
        entries.lemma_filter_contains(pred, i);
    }
    lemma_filter_count(entries, q);
    lemma_filter_order(entries, pred);
    let r = search_spec(entries, query);
    assert(r == entries.filter(pred));
    assert forall|a: int, b: int| 0 <= a < b < r.len()
        implies stands_before(entries, #[trigger] r[a], #[trigger] r[b]) by {
        assert(r[a] == entries.filter(pred)[a] && r[b] == entries.filter(pred)[b]);
    }
}

/// Search ignores case: two non-empty queries with the same lowercase form
/// list the same entries.
pub proof fn lemma_search_ignores_case(entries: Seq<Entry>, q1: Seq<char>, q2: Seq<char>)
    requires
        q1.len() > 0,
        q2.len() > 0,
        crate::text::lowercase(q1) == crate::text::lowercase(q2),
    ensures
        search_spec(entries, q1) == search_spec(entries, q2),
{
    let p1 = |e: Entry| entry_matches(e, crate::text::lowercase(q1));
    let p2 = |e: Entry| entry_matches(e, crate::text::lowercase(q2));
    assert(p1 =~= p2);
}

/// A vault file name is 16 hexadecimal digits and ".vault": 22 characters.
pub proof fn lemma_vault_file_name_len(random: Seq<u8>)
    requires
        random.len() == SALT_LEN,
    ensures
        vault_file_name_spec(random).len() == 22,
{
    lemma_hex_lower_len(random);
    reveal_strlit(".vault");
}

impl MediaItem {
    /// A new attachment of type `mime` holding `data`, under a fresh random
    /// id (a version-4 UUID): a video when the type begins with "video/",
    /// else an image; the bytes are stored as Base64.
    pub fn attachment(mime: String, data: &[u8]) -> (m: MediaItem)
        requires
            data@.len() / 3 * 4 + 4 <= usize::MAX,
        ensures
            is_uuid_v4_text(m.id@),
            m.kind == (if crate::text::is_prefix("video/"@, mime@) { MediaKind::Video } else { MediaKind::Image }),
            m.mime == mime,
            m.data@ == base64_encoding(data@),
            base64_decoding(m.data@) == Some(data@),
    {
        let kind = crate::ui::media_kind_for(mime.as_str());
        MediaItem { id: new_uuid(), kind, data: b64_encode(data), mime }
    }
}

// ─── the list of vaults ────────────────────────────────────────────────────

/// The string value of the top-level "name" field of a JSON text: `None`
/// when the text is not JSON, or has no such field, or its value is not a
/// string.
pub uninterp spec fn json_name(text: Seq<char>) -> Option<Seq<char>>;

/// Calls `serde_json::from_str` into a `serde_json::Value` and reads its
/// "name" field with `Value::as_str` (indexing a value that is not an object,
/// or lacks the field, gives `Null`, whose `as_str` is `None`).
#[verifier::external_body]
fn json_name_field(text: &str) -> (r: Option<String>)
    ensures
        match json_name(text@) {
            Some(n) => r matches Some(s) && s@ == n,
            None => r is None,
        },
{
    match serde_json::from_str::<serde_json::Value>(text) {
        Ok(v) => match v["name"].as_str() {
            Some(name) => Some(name.to_owned()),
            None => None,
        },
        Err(_) => None,
    }
}

/// A file with extension `ext` is a vault when the extension is "vault".
pub fn is_vault_file(ext: Option<&str>) -> (b: bool)
    ensures
        b == (ext matches Some(e) && e@ == "vault"@),
{
    match ext {
        Some(e) => crate::text::str_eq(e, "vault"),
        None => false,
    }
}

/// The name under which a vault file with text `text` is listed: its JSON
/// "name" string; `None` (the file is left out) when there is none.
pub fn listed_vault_name(text: &str) -> (r: Option<String>)
    ensures
        match json_name(text@) {
            Some(n) => r matches Some(s) && s@ == n,
            None => r is None,
        },
{
    json_name_field(text)
}

} // verus!
