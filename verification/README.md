# blossom

A private, encrypted journal with ambient sound. The verified library in
`src/` holds the journal's logic with Verus contracts; `app/` is the GTK
application around it (window, dialogs, audio, media-player watcher, files).

## Library modules

- `crypto` — scrypt key derivation (N = 2^15, r = 8, p = 1), AES-256-GCM
  encryption and decryption, standard Base64, random salts and nonces.
- `vault` — an unlocked journal: creating it, sealing its entries into the
  on-disk record and opening the record again; adding, replacing, deleting,
  finding and searching entries; file names for new vaults.
- `types` — entries, attachments and the vault record.
- `session` — the journal window's state and what each of its events changes.
- `settings` — accent palettes, light and dark themes, and the stylesheet.
- `mpris` — choosing the session's media player and reading its properties.
- `ui` — toolkit-independent decisions of the window: MIME types, font
  weights, passphrase rules, entry dates and the calendar view.
- `text` — verified string operations (search, replacement, trimming,
  decimal formatting).

## Vault format

Vaults live at `~/.local/share/blossom/profiles/<16hexchars>.vault` as JSON
with the fields `name`, `salt` (Base64), `font_family`, `font_size`,
`font_weight`, `line_height` and `entries` (`n`: Base64 nonce, `c`: Base64
AES-256-GCM ciphertext of the JSON array of entries).
